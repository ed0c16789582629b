use vstd::prelude::*;

verus! {

/// The content of one board cell.
#[derive(Clone, Copy, Debug, PartialEq, Eq, Structural)]
pub enum Mark {
    Empty,
    X,
    O,
}

/// Why a request against the game core was refused.
#[derive(Clone, Copy, Debug, PartialEq, Eq, Structural)]
pub enum GameError {
    /// The cell index names no cell of the nine-cell grid.
    InvalidIndex,
    /// The addressed cell already holds a mark.
    CellOccupied,
    /// The step number names no recorded snapshot.
    InvalidStep,
}

/// A tic-tac-toe board: nine cells in row-major order, rows
/// `[0, 1, 2]`, `[3, 4, 5]` and `[6, 7, 8]`. A move never changes a
/// board in place; it produces a fresh one, so boards can be stored
/// by value as history snapshots.
#[derive(Debug)]
pub struct Board {
    pub cells: Vec<Mark>,
}

impl View for Board {
    type V = Seq<Mark>;

    open spec fn view(&self) -> Seq<Mark> {
        self.cells@
    }
}

/// The board every game starts from: all nine cells empty.
pub open spec fn empty_board() -> Seq<Mark> {
    Seq::new(9, |i: int| Mark::Empty)
}

/// How many of the first `n` cells of `s` are empty.
pub open spec fn empties_up_to(s: Seq<Mark>, n: int) -> int
    decreases n,
{
    if n <= 0 {
        0
    } else {
        empties_up_to(s, n - 1) + if s[n - 1] == Mark::Empty {
            1int
        } else {
            0int
        }
    }
}

/// How many cells of a board are still empty.
pub open spec fn count_empty(s: Seq<Mark>) -> int {
    empties_up_to(s, 9)
}

pub proof fn lemma_empties_up_to_bounds(s: Seq<Mark>, n: int)
    requires
        0 <= n,
    ensures
        0 <= empties_up_to(s, n) <= n,
    decreases n,
{
    if n > 0 {
        lemma_empties_up_to_bounds(s, n - 1);
    }
}

/// Replacing the one cell `j` changes the empty-cell count of the first
/// `n` cells exactly when `j` lies among them, and then by the difference
/// the replacement makes at that cell.
pub proof fn lemma_empties_up_to_update(s: Seq<Mark>, j: int, m: Mark, n: int)
    requires
        0 <= j < s.len(),
        n <= s.len(),
    ensures
        empties_up_to(s.update(j, m), n) == empties_up_to(s, n) + if 0 <= j < n {
            (if m == Mark::Empty {
                1int
            } else {
                0int
            }) - (if s[j] == Mark::Empty {
                1int
            } else {
                0int
            })
        } else {
            0int
        },
    decreases n,
{
    if n > 0 {
        lemma_empties_up_to_update(s, j, m, n - 1);
    }
}

/// A board with an empty cell among its first `n` has at least one
/// empty cell counted there.
pub proof fn lemma_empty_cell_counted(s: Seq<Mark>, j: int, n: int)
    requires
        0 <= j < n,
        s[j] == Mark::Empty,
    ensures
        empties_up_to(s, n) >= 1,
    decreases n,
{
    if j < n - 1 {
        lemma_empty_cell_counted(s, j, n - 1);
    } else {
        lemma_empties_up_to_bounds(s, n - 1);
    }
}

/// The starting board has all nine empty cells to play.
pub proof fn lemma_count_empty_board()
    ensures
        count_empty(empty_board()) == 9,
{
    reveal_with_fuel(empties_up_to, 10);
}

impl Board {
    /// A board is exactly nine cells.
    pub open spec fn wf(self) -> bool {
        self@.len() == 9
    }

    /// The all-empty starting board.
    pub fn new() -> (b: Board)
        ensures
            b.wf(),
            b@ == empty_board(),
    {
        let mut cells: Vec<Mark> = Vec::new();
        let mut i: usize = 0;
        while i < 9
            invariant
                i <= 9,
                cells@.len() == i,
                forall|j: int| 0 <= j < i ==> cells@[j] == Mark::Empty,
            decreases 9 - i,
        {
            cells.push(Mark::Empty);
            i = i + 1;
        }
        let b = Board { cells };
        proof {
            assert(b@ =~= empty_board());
        }
        b
    }

    /// The mark held by cell `index`.
    pub fn get(&self, index: usize) -> (m: Mark)
        requires
            self.wf(),
            index < 9,
        ensures
            m == self@[index as int],
    {
        self.cells[index]
    }

    /// An identical, independent copy of the board.
    pub fn snapshot(&self) -> (b: Board)
        requires
            self.wf(),
        ensures
            b.wf(),
            b@ == self@,
    {
        let mut cells: Vec<Mark> = Vec::new();
        let mut i: usize = 0;
        while i < 9
            invariant
                i <= 9,
                self.wf(),
                cells@.len() == i,
                forall|j: int| 0 <= j < i ==> cells@[j] == self@[j],
            decreases 9 - i,
        {
            cells.push(self.cells[i]);
            i = i + 1;
        }
        let b = Board { cells };
        proof {
            assert(b@ =~= self@);
        }
        b
    }

    /// One move: a new board identical to this one except that cell
    /// `index` now holds `mark`. The input board is left untouched.
    /// An index outside the grid is refused as `InvalidIndex`; a cell
    /// already holding a mark is refused as `CellOccupied`.
    pub fn apply(&self, index: usize, mark: Mark) -> (r: Result<Board, GameError>)
        requires
            self.wf(),
        ensures
            index >= 9 ==> r == Err::<Board, GameError>(GameError::InvalidIndex),
            index < 9 && self@[index as int] != Mark::Empty ==> r == Err::<Board, GameError>(
                GameError::CellOccupied,
            ),
            index < 9 && self@[index as int] == Mark::Empty ==> (r matches Ok(b) && b.wf() && b@
                == self@.update(index as int, mark)),
    {
        if index >= 9 {
            return Err(GameError::InvalidIndex);
        }
        if self.cells[index] != Mark::Empty {
            return Err(GameError::CellOccupied);
        }
        let mut cells: Vec<Mark> = Vec::new();
        let mut i: usize = 0;
        while i < 9
            invariant
                i <= 9,
                self.wf(),
                index < 9,
                cells@.len() == i,
                forall|j: int|
                    0 <= j < i ==> cells@[j] == (if j == index {
                        mark
                    } else {
                        self@[j]
                    }),
            decreases 9 - i,
        {
            if i == index {
                cells.push(mark);
            } else {
                cells.push(self.cells[i]);
            }
            i = i + 1;
        }
        let b = Board { cells };
        proof {
            assert(b@ =~= self@.update(index as int, mark));
        }
        Ok(b)
    }
}

/// A move is a pure function of its inputs: it never touches the board
/// it is applied to, and two results of the same move on equal boards
/// are equal boards.
pub proof fn lemma_apply_deterministic(a: Board, b: Board, r1: Board, r2: Board, index: int, mark: Mark)
    requires
        a@ == b@,
        r1@ == a@.update(index, mark),
        r2@ == b@.update(index, mark),
    ensures
        r1@ == r2@,
{
}

} // verus!
