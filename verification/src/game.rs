use vstd::prelude::*;

use crate::board::count_empty;
use crate::board::empty_board;
use crate::board::lemma_count_empty_board;
use crate::board::lemma_empties_up_to_update;
use crate::board::lemma_empty_cell_counted;
use crate::board::Board;
use crate::board::GameError;
use crate::board::Mark;
use crate::winner::spec_winner;
use crate::winner::winner;

verus! {

/// One recorded snapshot of the board, its place in the history being
/// its move number. Never changed once recorded.
pub struct Frame {
    pub board: Board,
}

impl Default for Frame {
    /// The game-start snapshot: an all-empty board.
    fn default() -> (f: Frame)
        ensures
            f.board.wf(),
            f.board@ == empty_board(),
    {
        Frame { board: Board::new() }
    }
}

/// The mark that moves at step number `c`: X moves on even steps.
pub open spec fn mark_to_move(c: int) -> Mark {
    if c % 2 == 0 {
        Mark::X
    } else {
        Mark::O
    }
}

/// The mark placed by move number `k`, the move recorded as snapshot
/// `k`: X placed it when `k` is odd, O when `k` is even.
pub open spec fn mark_of_move(k: int) -> Mark {
    if k % 2 == 1 {
        Mark::X
    } else {
        Mark::O
    }
}

/// `post` is `pre` with exactly one formerly empty cell claimed by `m`.
pub open spec fn extends_by_one(pre: Seq<Mark>, post: Seq<Mark>, m: Mark) -> bool {
    exists|j: int| 0 <= j < 9 && pre[j] == Mark::Empty && post == #[trigger] pre.update(j, m)
}

/// One entry of the time-travel menu: a step number and its label.
pub struct MoveEntry {
    pub step: usize,
    pub label: String,
}

/// The label of history entry `step`. A game records at most nine
/// moves, so every step number is a single digit.
pub open spec fn spec_label(step: int) -> Seq<char> {
    if step == 0 {
        "Go to game start"@
    } else if step == 1 {
        "Go to move #1"@
    } else if step == 2 {
        "Go to move #2"@
    } else if step == 3 {
        "Go to move #3"@
    } else if step == 4 {
        "Go to move #4"@
    } else if step == 5 {
        "Go to move #5"@
    } else if step == 6 {
        "Go to move #6"@
    } else if step == 7 {
        "Go to move #7"@
    } else if step == 8 {
        "Go to move #8"@
    } else {
        "Go to move #9"@
    }
}

/// The label shown for history entry `step` in the time-travel menu.
pub fn move_label(step: usize) -> (r: &'static str)
    requires
        step < 10,
    ensures
        r@ == spec_label(step as int),
{
    match step {
        0 => "Go to game start",
        1 => "Go to move #1",
        2 => "Go to move #2",
        3 => "Go to move #3",
        4 => "Go to move #4",
        5 => "Go to move #5",
        6 => "Go to move #6",
        7 => "Go to move #7",
        8 => "Go to move #8",
        _ => "Go to move #9",
    }
}

/// The move-history manager: every snapshot since game start, and the
/// step number ("cursor") of the snapshot currently on display. Time
/// travel moves the cursor; only a new move discards recorded frames,
/// and then exactly the ones beyond the cursor.
pub struct Game {
    pub history: Vec<Frame>,
    pub cursor: usize,
}

impl Game {
    /// The board views of the recorded snapshots, oldest first.
    pub open spec fn boards(self) -> Seq<Seq<Mark>> {
        self.history@.map(|i: int, f: Frame| f.board@)
    }

    /// Everything the manager maintains about its state: at least the
    /// game-start snapshot is recorded and the cursor points at a
    /// recorded snapshot; snapshot 0 is the all-empty board; each later
    /// snapshot extends the one before it by exactly one mark, the mark
    /// whose turn it was; and snapshot `i` has exactly `9 - i` empty
    /// cells left, so a history never outgrows the board.
    pub open spec fn wf(self) -> bool {
        &&& 1 <= self.history@.len() <= 10
        &&& self.cursor < self.history@.len()
        &&& forall|i: int| 0 <= i < self.history@.len() ==> (#[trigger] self.boards()[i]).len() == 9
        &&& self.boards()[0] == empty_board()
        &&& forall|i: int|
            1 <= i < self.history@.len() ==> extends_by_one(
                self.boards()[i - 1],
                #[trigger] self.boards()[i],
                mark_of_move(i),
            )
        &&& forall|i: int|
            0 <= i < self.history@.len() ==> count_empty(#[trigger] self.boards()[i]) == 9 - i
    }

    /// The board on display: the snapshot the cursor points at.
    pub open spec fn current(self) -> Seq<Mark> {
        self.boards()[self.cursor as int]
    }

    /// Whether a move at `index` is accepted: nobody has won the
    /// displayed board yet, and the addressed cell is still empty.
    pub open spec fn move_allowed(self, index: int) -> bool {
        &&& spec_winner(self.current()) is None
        &&& self.current()[index] == Mark::Empty
    }

    /// The status line of the game: the winner once the displayed board
    /// shows one, otherwise whose turn it is.
    pub open spec fn spec_status(self) -> Seq<char> {
        match spec_winner(self.current()) {
            Some(m) => if m == Mark::X {
                "Winner: X"@
            } else {
                "Winner: O"@
            },
            None => if self.cursor as int % 2 == 0 {
                "Next player: X"@
            } else {
                "Next player: O"@
            },
        }
    }

    /// A fresh game: one all-empty snapshot, the cursor on it, X to move.
    pub fn new() -> (g: Game)
        ensures
            g.wf(),
            g.history@.len() == 1,
            g.cursor == 0,
    {
        let mut history: Vec<Frame> = Vec::new();
        history.push(Frame::default());
        let g = Game { history, cursor: 0 };
        proof {
            lemma_count_empty_board();
            assert(g.boards()[0] == empty_board());
        }
        g
    }

    /// The step number on display.
    pub fn step_number(&self) -> (n: usize)
        ensures
            n == self.cursor,
    {
        self.cursor
    }

    /// How many snapshots the history records.
    pub fn history_len(&self) -> (n: usize)
        ensures
            n == self.history@.len(),
    {
        self.history.len()
    }

    /// A copy of the board recorded as snapshot `step`.
    pub fn board_at(&self, step: usize) -> (b: Board)
        requires
            self.wf(),
            step < self.history@.len(),
        ensures
            b.wf(),
            b@ == self.boards()[step as int],
    {
        proof {
            assert(self.boards()[step as int].len() == 9);
        }
        self.history[step].board.snapshot()
    }

    /// A copy of the board on display.
    pub fn current_board(&self) -> (b: Board)
        requires
            self.wf(),
        ensures
            b.wf(),
            b@ == self.current(),
    {
        self.board_at(self.cursor)
    }

    /// The Move(index) transition. A move after the game is won, or at
    /// a cell already holding a mark, is rejected and changes nothing.
    /// An accepted move discards every snapshot beyond the cursor,
    /// appends the displayed board with the moving player's mark placed
    /// at `index`, and puts the cursor on the new snapshot — so right
    /// after it no stale future remains: the history is exactly
    /// `cursor + 1` snapshots long.
    #[verifier::rlimit(60)]
    pub fn make_move(&mut self, index: usize)
        requires
            old(self).wf(),
            index < 9,
        ensures
            final(self).wf(),
            !old(self).move_allowed(index as int) ==> *final(self) == *old(self),
            spec_winner(old(self).current()) is Some ==> *final(self) == *old(self),
            old(self).move_allowed(index as int) ==> ({
                &&& final(self).cursor as int == old(self).cursor as int + 1
                &&& final(self).history@.len() == final(self).cursor as int + 1
                &&& forall|i: int|
                    0 <= i <= old(self).cursor ==> #[trigger] final(self).boards()[i]
                        == old(self).boards()[i]
                &&& final(self).current() == old(self).current().update(
                    index as int,
                    mark_to_move(old(self).cursor as int),
                )
            }),
    {
        let cur = self.cursor;
        proof {
            assert(self.boards()[cur as int].len() == 9);
        }
        let won = winner(&self.history[cur].board).is_some();
        let occupied = self.history[cur].board.get(index) != Mark::Empty;
        if won || occupied {
            return;
        }
        let mark = if cur % 2 == 0 {
            Mark::X
        } else {
            Mark::O
        };
        let nb = match self.history[cur].board.apply(index, mark) {
            Ok(b) => b,
            Err(_) => Board::new(),  // unreachable: the cell is in range and empty
        };
        let ghost pre_game = *self;
        self.history.truncate(cur + 1);
        self.history.push(Frame { board: nb });
        self.cursor = cur + 1;
        proof {
            let c = cur as int;
            assert forall|i: int| 0 <= i <= c implies self.history@[i] == pre_game.history@[i] by {
                assert(self.history@[i] == pre_game.history@.subrange(0, c + 1)[i]);
            }
            assert(self.history@[c + 1].board@ == pre_game.current().update(
                index as int,
                mark_to_move(c),
            ));
            Self::lemma_move_shape(pre_game, *self, index as int);
        }
    }

    /// An accepted move reshapes the state as the Move transition says:
    /// the history up to the cursor is kept, one snapshot with the
    /// turn's mark placed is appended, and the cursor moves onto it.
    /// Such a state is again well formed.
    proof fn lemma_move_shape(pre: Game, post: Game, index: int)
        requires
            pre.wf(),
            0 <= index < 9,
            pre.move_allowed(index),
            post.cursor as int == pre.cursor as int + 1,
            post.history@.len() == pre.cursor as int + 2,
            forall|i: int| 0 <= i <= pre.cursor ==> post.history@[i] == pre.history@[i],
            post.history@[pre.cursor as int + 1].board@ == pre.current().update(
                index,
                mark_to_move(pre.cursor as int),
            ),
        ensures
            post.wf(),
            forall|i: int|
                0 <= i <= pre.cursor ==> #[trigger] post.boards()[i] == pre.boards()[i],
            post.current() == pre.current().update(index, mark_to_move(pre.cursor as int)),
    {
        let c = pre.cursor as int;
        let mark = mark_to_move(c);
        let prev = pre.current();
        let nb = post.history@[c + 1].board@;
        assert forall|i: int|
            0 <= i <= c implies #[trigger] post.boards()[i] == pre.boards()[i] by {
            assert(post.history@[i] == pre.history@[i]);
        }
        assert(post.boards()[c + 1] == nb);
        // the board still had room, so the history stays within ten
        lemma_empty_cell_counted(prev, index, 9);
        assert(count_empty(prev) == 9 - c);
        assert(c + 2 <= 10);
        // every snapshot is still a nine-cell board
        assert forall|i: int|
            0 <= i < post.history@.len() implies (#[trigger] post.boards()[i]).len() == 9 by {
            if i <= c {
                assert(post.boards()[i] == pre.boards()[i]);
            } else {
                assert(post.boards()[i] == nb);
            }
        }
        // each snapshot still extends the one before it by the turn's mark
        assert forall|i: int|
            1 <= i < post.history@.len() implies extends_by_one(
                post.boards()[i - 1],
                #[trigger] post.boards()[i],
                mark_of_move(i),
            ) by {
            if i <= c {
                assert(post.boards()[i] == pre.boards()[i]);
                assert(post.boards()[i - 1] == pre.boards()[i - 1]);
                assert(extends_by_one(pre.boards()[i - 1], pre.boards()[i], mark_of_move(i)));
            } else {
                assert(post.boards()[i - 1] == prev);
                assert(post.boards()[i] == nb);
                assert(prev[index] == Mark::Empty);
                assert(nb == prev.update(index, mark));
                assert(extends_by_one(prev, nb, mark));
                assert(mark == mark_of_move(i));
            }
        }
        // each snapshot still has exactly as many empty cells as moves left
        assert forall|i: int|
            0 <= i < post.history@.len() implies count_empty(#[trigger] post.boards()[i]) == 9
                - i by {
            if i <= c {
                assert(post.boards()[i] == pre.boards()[i]);
            } else {
                assert(post.boards()[i] == nb);
                lemma_empties_up_to_update(prev, index, mark, 9);
                assert(count_empty(nb) == count_empty(prev) - 1);
            }
        }
    }

    /// The JumpTo(step) transition: time travel. Puts the cursor on
    /// snapshot `step` without touching the history; a step number with
    /// no recorded snapshot is refused as `InvalidStep` and changes
    /// nothing.
    pub fn jump_to(&mut self, step: usize) -> (r: Result<(), GameError>)
        requires
            old(self).wf(),
        ensures
            final(self).wf(),
            final(self).history@ == old(self).history@,
            step < old(self).history@.len() ==> r == Ok::<(), GameError>(()) && final(self).cursor
                == step,
            step >= old(self).history@.len() ==> r == Err::<(), GameError>(GameError::InvalidStep)
                && *final(self) == *old(self),
    {
        if step < self.history.len() {
            self.cursor = step;
            Ok(())
        } else {
            Err(GameError::InvalidStep)
        }
    }

    /// The status line: `"Winner: ..."` once the displayed board shows
    /// a winner, else `"Next player: ..."` for the mark that moves at
    /// the displayed step.
    pub fn current_status(&self) -> (r: &'static str)
        requires
            self.wf(),
        ensures
            r@ == self.spec_status(),
    {
        proof {
            assert(self.current().len() == 9);
        }
        match winner(&self.history[self.cursor].board) {
            Some(m) => if m == Mark::X {
                "Winner: X"
            } else {
                "Winner: O"
            },
            None => if self.cursor % 2 == 0 {
                "Next player: X"
            } else {
                "Next player: O"
            },
        }
    }

    /// The time-travel menu: one labelled entry per recorded snapshot,
    /// oldest first, each carrying its step number.
    pub fn move_list(&self) -> (r: Vec<MoveEntry>)
        requires
            self.wf(),
        ensures
            r@.len() == self.history@.len(),
            forall|i: int|
                0 <= i < r@.len() ==> (#[trigger] r@[i]).step == i && r@[i].label@ == spec_label(i),
    {
        let mut entries: Vec<MoveEntry> = Vec::new();
        let n = self.history.len();
        let mut i: usize = 0;
        while i < n
            invariant
                i <= n,
                n <= 10,
                entries@.len() == i,
                forall|j: int|
                    0 <= j < i ==> (#[trigger] entries@[j]).step == j && entries@[j].label@
                        == spec_label(j),
            decreases n - i,
        {
            let label = move_label(i).to_owned();
            entries.push(MoveEntry { step: i, label });
            i = i + 1;
        }
        entries
    }
}

/// Turn alternation: in any well-formed history, move `k` — the move
/// recorded as snapshot `k` — placed X's mark when `k` is odd and O's
/// mark when `k` is even.
pub proof fn lemma_turn_alternation(g: Game, k: int)
    requires
        g.wf(),
        1 <= k < g.history@.len(),
    ensures
        extends_by_one(g.boards()[k - 1], g.boards()[k], mark_of_move(k)),
        k % 2 == 1 ==> mark_of_move(k) == Mark::X,
        k % 2 == 0 ==> mark_of_move(k) == Mark::O,
{
}

/// Jumping to the game start always shows the all-empty board, with X
/// to move.
pub proof fn lemma_game_start(g: Game)
    requires
        g.wf(),
        g.cursor == 0,
    ensures
        g.current() == empty_board(),
        mark_to_move(g.cursor as int) == Mark::X,
{
}

} // verus!
