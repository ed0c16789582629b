//! A verified tic-tac-toe game core.
//!
//! The crate provides the board representation, the win detector and the
//! move-history manager ("time travel") of a tic-tac-toe game, with the
//! rules of play stated as contracts: whose turn it is, when a move is
//! accepted, how a winner is detected, and how past snapshots of the board
//! are recorded, restored and branched from. Rendering and event wiring are
//! left to callers.

pub mod board;
pub mod game;
pub mod winner;

pub use board::Board;
pub use board::GameError;
pub use board::Mark;
pub use game::Frame;
pub use game::Game;
pub use game::MoveEntry;
pub use winner::winner;
