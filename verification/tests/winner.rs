use tictactoe::{winner, Board, Mark};

fn board_of(marks: [Mark; 9]) -> Board {
    let mut b = Board::new();
    for (i, m) in marks.into_iter().enumerate() {
        if m != Mark::Empty {
            b = b.apply(i, m).unwrap();
        }
    }
    b
}

const E: Mark = Mark::Empty;
const X: Mark = Mark::X;
const O: Mark = Mark::O;

#[test]
fn empty_board_has_no_winner() {
    assert_eq!(winner(&Board::new()), None);
}

#[test]
fn rows_win() {
    assert_eq!(winner(&board_of([X, X, X, O, O, E, E, E, E])), Some(X));
    assert_eq!(winner(&board_of([X, E, X, O, O, O, X, E, E])), Some(O));
    assert_eq!(winner(&board_of([O, E, O, X, E, E, X, X, X])), Some(X));
}

#[test]
fn columns_win() {
    assert_eq!(winner(&board_of([X, O, E, X, O, E, X, E, E])), Some(X));
    assert_eq!(winner(&board_of([X, O, E, E, O, X, E, O, E])), Some(O));
    assert_eq!(winner(&board_of([O, E, X, O, E, X, E, E, X])), Some(X));
}

#[test]
fn diagonals_win() {
    assert_eq!(winner(&board_of([X, O, E, O, X, E, E, E, X])), Some(X));
    assert_eq!(winner(&board_of([X, X, O, E, O, E, O, E, E])), Some(O));
}

#[test]
fn mixed_lines_have_no_winner() {
    // a drawn board: every line holds both players' marks
    assert_eq!(winner(&board_of([X, O, X, X, O, O, O, X, X])), None);
}

#[test]
fn partial_lines_have_no_winner() {
    assert_eq!(winner(&board_of([X, X, E, O, O, E, E, E, E])), None);
    assert_eq!(winner(&board_of([X, E, E, E, X, E, E, E, E])), None);
}

#[test]
fn first_line_in_fixed_order_is_reported() {
    // the top row (X's) comes before the bottom row (O's)
    assert_eq!(winner(&board_of([X, X, X, E, E, E, O, O, O])), Some(X));
}
