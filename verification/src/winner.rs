use vstd::prelude::*;

use crate::board::Board;
use crate::board::Mark;

verus! {

/// Cells `a`, `b` and `c` all hold the same player's mark.
pub open spec fn line_wins(s: Seq<Mark>, a: int, b: int, c: int) -> bool {
    s[a] != Mark::Empty && s[a] == s[b] && s[a] == s[c]
}

/// The winner a board shows: the mark of the first of the eight lines
/// — the three rows top to bottom, the three columns left to right,
/// then the two diagonals — whose cells all hold the same player's
/// mark, and `None` when no line does.
pub open spec fn spec_winner(s: Seq<Mark>) -> Option<Mark> {
    if line_wins(s, 0, 1, 2) {
        Some(s[0])
    } else if line_wins(s, 3, 4, 5) {
        Some(s[3])
    } else if line_wins(s, 6, 7, 8) {
        Some(s[6])
    } else if line_wins(s, 0, 3, 6) {
        Some(s[0])
    } else if line_wins(s, 1, 4, 7) {
        Some(s[1])
    } else if line_wins(s, 2, 5, 8) {
        Some(s[2])
    } else if line_wins(s, 0, 4, 8) {
        Some(s[0])
    } else if line_wins(s, 2, 4, 6) {
        Some(s[2])
    } else {
        None
    }
}

/// Some row, column or diagonal is uniformly one player's.
pub open spec fn has_win_line(s: Seq<Mark>) -> bool {
    ||| line_wins(s, 0, 1, 2)
    ||| line_wins(s, 3, 4, 5)
    ||| line_wins(s, 6, 7, 8)
    ||| line_wins(s, 0, 3, 6)
    ||| line_wins(s, 1, 4, 7)
    ||| line_wins(s, 2, 5, 8)
    ||| line_wins(s, 0, 4, 8)
    ||| line_wins(s, 2, 4, 6)
}

/// Player `m` owns the full line `a`, `b`, `c`.
pub open spec fn wins_line(s: Seq<Mark>, m: Mark, a: int, b: int, c: int) -> bool {
    m != Mark::Empty && s[a] == m && s[b] == m && s[c] == m
}

/// The win detector reports a mark exactly when some row, column or
/// diagonal is uniform and non-empty, and the mark it reports owns
/// such a line; on every other board it reports `None`.
pub proof fn lemma_winner_characterization(s: Seq<Mark>)
    ensures
        (spec_winner(s) is Some) <==> has_win_line(s),
        spec_winner(s) matches Some(m) ==> ({
            ||| wins_line(s, m, 0, 1, 2)
            ||| wins_line(s, m, 3, 4, 5)
            ||| wins_line(s, m, 6, 7, 8)
            ||| wins_line(s, m, 0, 3, 6)
            ||| wins_line(s, m, 1, 4, 7)
            ||| wins_line(s, m, 2, 5, 8)
            ||| wins_line(s, m, 0, 4, 8)
            ||| wins_line(s, m, 2, 4, 6)
        }),
{
}

/// The marks of one line, reported as the winner when uniform.
fn check_line(board: &Board, a: usize, b: usize, c: usize) -> (r: Option<Mark>)
    requires
        board.wf(),
        a < 9,
        b < 9,
        c < 9,
    ensures
        r == (if line_wins(board@, a as int, b as int, c as int) {
            Some(board@[a as int])
        } else {
            None::<Mark>
        }),
{
    let ma = board.cells[a];
    if ma != Mark::Empty && ma == board.cells[b] && ma == board.cells[c] {
        Some(ma)
    } else {
        None
    }
}

/// Win detection: the mark of the first uniform, non-empty line in the
/// fixed order rows, columns, diagonals; `None` when no line is won.
pub fn winner(board: &Board) -> (r: Option<Mark>)
    requires
        board.wf(),
    ensures
        r == spec_winner(board@),
{
    let r = check_line(board, 0, 1, 2);
    if r.is_some() {
        return r;
    }
    let r = check_line(board, 3, 4, 5);
    if r.is_some() {
        return r;
    }
    let r = check_line(board, 6, 7, 8);
    if r.is_some() {
        return r;
    }
    let r = check_line(board, 0, 3, 6);
    if r.is_some() {
        return r;
    }
    let r = check_line(board, 1, 4, 7);
    if r.is_some() {
        return r;
    }
    let r = check_line(board, 2, 5, 8);
    if r.is_some() {
        return r;
    }
    let r = check_line(board, 0, 4, 8);
    if r.is_some() {
        return r;
    }
    let r = check_line(board, 2, 4, 6);
    if r.is_some() {
        return r;
    }
    None
}

} // verus!
