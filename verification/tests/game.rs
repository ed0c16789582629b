use tictactoe::{Frame, Game, GameError, Mark};

#[test]
fn fresh_game_shows_the_empty_board() {
    let g = Game::new();
    assert_eq!(g.history_len(), 1);
    assert_eq!(g.step_number(), 0);
    let b = g.current_board();
    for i in 0..9 {
        assert_eq!(b.get(i), Mark::Empty);
    }
    assert_eq!(g.current_status(), "Next player: X");
}

#[test]
fn frame_default_is_the_game_start_snapshot() {
    let f = Frame::default();
    for i in 0..9 {
        assert_eq!(f.board.get(i), Mark::Empty);
    }
}

#[test]
fn moves_alternate_between_x_and_o() {
    let mut g = Game::new();
    for index in [0, 3, 1, 4] {
        g.make_move(index);
    }
    // move k (1-indexed) was made by X when k is odd
    assert_eq!(g.board_at(1).get(0), Mark::X);
    assert_eq!(g.board_at(2).get(3), Mark::O);
    assert_eq!(g.board_at(3).get(1), Mark::X);
    assert_eq!(g.board_at(4).get(4), Mark::O);
    assert_eq!(g.current_status(), "Next player: X");
}

#[test]
fn a_move_drops_every_stale_future_frame() {
    let mut g = Game::new();
    for index in [0, 3, 1, 4, 6] {
        g.make_move(index);
        assert_eq!(g.history_len(), g.step_number() + 1);
    }
    g.jump_to(2).unwrap();
    assert_eq!(g.history_len(), 6);
    g.make_move(8);
    assert_eq!(g.history_len(), g.step_number() + 1);
}

#[test]
fn a_move_at_an_occupied_cell_changes_nothing() {
    let mut g = Game::new();
    g.make_move(4);
    g.make_move(4);
    assert_eq!(g.history_len(), 2);
    assert_eq!(g.step_number(), 1);
    assert_eq!(g.current_board().get(4), Mark::X);
    assert_eq!(g.current_status(), "Next player: O");
}

#[test]
fn x_wins_the_top_row() {
    let mut g = Game::new();
    for index in [0, 4, 1, 3, 2] {
        g.make_move(index);
    }
    let b = g.current_board();
    assert_eq!(b.get(0), Mark::X);
    assert_eq!(b.get(1), Mark::X);
    assert_eq!(b.get(2), Mark::X);
    assert_eq!(g.current_status(), "Winner: X");
}

#[test]
fn no_move_is_accepted_once_the_game_is_won() {
    let mut g = Game::new();
    for index in [0, 4, 1, 3, 2] {
        g.make_move(index);
    }
    assert_eq!(g.current_status(), "Winner: X");
    g.make_move(5);
    assert_eq!(g.history_len(), 6);
    assert_eq!(g.step_number(), 5);
    assert_eq!(g.current_board().get(5), Mark::Empty);
    assert_eq!(g.current_status(), "Winner: X");
}

#[test]
fn branching_from_a_past_move_discards_the_old_future() {
    let mut g = Game::new();
    // moves 1..4: history holds 5 frames
    for index in [0, 1, 2, 3] {
        g.make_move(index);
    }
    assert_eq!(g.history_len(), 5);
    g.jump_to(2).unwrap();
    assert_eq!(g.step_number(), 2);
    assert_eq!(g.history_len(), 5);
    g.make_move(8);
    // frames 0, 1, 2 and the new one; old frames 3 and 4 are gone
    assert_eq!(g.history_len(), 4);
    assert_eq!(g.step_number(), 3);
    assert_eq!(g.board_at(1).get(0), Mark::X);
    assert_eq!(g.board_at(2).get(1), Mark::O);
    let b = g.current_board();
    assert_eq!(b.get(8), Mark::X);
    assert_eq!(b.get(2), Mark::Empty);
    assert_eq!(b.get(3), Mark::Empty);
}

#[test]
fn jumping_to_the_start_shows_the_empty_board_and_x_to_move() {
    let mut g = Game::new();
    for index in [0, 4, 1, 3, 2] {
        g.make_move(index);
    }
    g.jump_to(0).unwrap();
    let b = g.current_board();
    for i in 0..9 {
        assert_eq!(b.get(i), Mark::Empty);
    }
    assert_eq!(g.current_status(), "Next player: X");
    assert_eq!(g.history_len(), 6);
}

#[test]
fn jumping_back_shows_the_recorded_snapshot() {
    let mut g = Game::new();
    for index in [0, 4, 1] {
        g.make_move(index);
    }
    g.jump_to(2).unwrap();
    let b = g.current_board();
    assert_eq!(b.get(0), Mark::X);
    assert_eq!(b.get(4), Mark::O);
    assert_eq!(b.get(1), Mark::Empty);
    assert_eq!(g.current_status(), "Next player: X");
}

#[test]
fn jumping_past_the_history_is_refused() {
    let mut g = Game::new();
    g.make_move(0);
    assert_eq!(g.jump_to(2).unwrap_err(), GameError::InvalidStep);
    assert_eq!(g.step_number(), 1);
    assert_eq!(g.history_len(), 2);
}

#[test]
fn the_move_list_labels_every_snapshot() {
    let mut g = Game::new();
    g.make_move(0);
    g.make_move(4);
    let entries = g.move_list();
    assert_eq!(entries.len(), 3);
    assert_eq!(entries[0].step, 0);
    assert_eq!(entries[0].label, "Go to game start");
    assert_eq!(entries[1].step, 1);
    assert_eq!(entries[1].label, "Go to move #1");
    assert_eq!(entries[2].step, 2);
    assert_eq!(entries[2].label, "Go to move #2");
}

#[test]
fn a_full_game_reaches_nine_moves_at_most() {
    let mut g = Game::new();
    // a drawn game: every cell filled, no winner
    for index in [0, 1, 2, 4, 3, 5, 7, 6, 8] {
        g.make_move(index);
    }
    assert_eq!(g.history_len(), 10);
    assert_eq!(g.current_status(), "Next player: O");
    // the board is full: no further move is accepted
    for index in 0..9 {
        g.make_move(index);
    }
    assert_eq!(g.history_len(), 10);
    assert_eq!(g.step_number(), 9);
    let entries = g.move_list();
    assert_eq!(entries.len(), 10);
    assert_eq!(entries[9].label, "Go to move #9");
}
