//! The 3×3 board and the states of its cells.
use vstd::prelude::*;

verus! {

/// Number of rows on the board.
pub const ROWS: usize = 3;

/// Number of columns on the board.
pub const COLS: usize = 3;

/// What a cell holds. `Empty` also stands for "no winner yet" when a board
/// is evaluated.
#[derive(Clone, Copy, Debug, PartialEq, Eq, Hash, Structural)]
pub enum State {
    X,
    O,
    Empty,
}

impl State {
    /// Whether this is one of the two player marks.
    pub open spec fn is_player(self) -> bool {
        self != State::Empty
    }

    /// The other player's mark; `Empty` stays `Empty`.
    pub open spec fn spec_opponent(self) -> State {
        match self {
            State::X => State::O,
            State::O => State::X,
            State::Empty => State::Empty,
        }
    }

    /// The character a cell is drawn with.
    pub open spec fn spec_glyph(self) -> char {
        match self {
            State::X => 'X',
            State::O => 'O',
            State::Empty => ' ',
        }
    }

    /// The mark of the player who moves after this one.
    pub fn opponent(self) -> (r: State)
        requires
            self.is_player(),
        ensures
            r == self.spec_opponent(),
            r.is_player(),
            r != self,
    {
        match self {
            State::X => State::O,
            State::O => State::X,
            State::Empty => State::Empty,
        }
    }

    /// The character a cell holding this state is drawn with.
    pub fn glyph(self) -> (r: char)
        ensures
            r == self.spec_glyph(),
    {
        match self {
            State::X => 'X',
            State::O => 'O',
            State::Empty => ' ',
        }
    }
}

/// A position on the board, zero-based: `0 <= r < 3` and `0 <= c < 3`.
pub open spec fn in_range(r: int, c: int) -> bool {
    0 <= r < ROWS && 0 <= c < COLS
}

/// Cell index `i` in row-major order, `0 <= i < 9`, as a (row, column) pair.
pub open spec fn cell_of_index(i: int) -> (int, int) {
    (i / 3, i % 3)
}

/// The grid, row-major: `cells[r][c]` is the cell at row `r`, column `c`.
#[derive(Clone, Copy, Debug)]
pub struct Board {
    pub cells: [[State; 3]; 3],
}

impl Board {
    /// The state of the cell at row `r`, column `c`.
    pub open spec fn cell(self, r: int, c: int) -> State {
        self.cells@[r]@[c]
    }

    /// Whether the two boards hold the same state in every cell.
    pub open spec fn same_cells(self, other: Board) -> bool {
        forall|r: int, c: int| in_range(r, c) ==> #[trigger] self.cell(r, c) == other.cell(r, c)
    }

    /// Whether every cell is empty.
    pub open spec fn is_blank(self) -> bool {
        forall|r: int, c: int| in_range(r, c) ==> #[trigger] self.cell(r, c) == State::Empty
    }

    /// Whether every cell holds a player mark.
    pub open spec fn spec_is_full(self) -> bool {
        forall|r: int, c: int| in_range(r, c) ==> #[trigger] self.cell(r, c).is_player()
    }

    /// Whether `other` is `self` with the cell at (`r`, `c`) set to `m` and
    /// every other cell kept.
    pub open spec fn placed(self, other: Board, r: int, c: int, m: State) -> bool {
        &&& other.cell(r, c) == m
        &&& forall|r2: int, c2: int|
            in_range(r2, c2) && (r2, c2) != (r, c) ==> #[trigger] other.cell(r2, c2) == self.cell(
                r2,
                c2,
            )
    }

    /// Number of marked cells among the first `n` cells in row-major order.
    pub open spec fn filled_upto(self, n: int) -> nat
        decreases n,
    {
        if n <= 0 {
            0
        } else {
            let (r, c) = cell_of_index(n - 1);
            self.filled_upto(n - 1) + if self.cell(r, c).is_player() {
                1nat
            } else {
                0nat
            }
        }
    }

    /// Number of marked cells on the board.
    pub open spec fn filled(self) -> nat {
        self.filled_upto(9)
    }

    /// An empty board.
    pub fn new() -> (b: Board)
        ensures
            b.is_blank(),
    {
        Board { cells: [[State::Empty; 3]; 3] }
    }

    /// The state of the cell at row `r`, column `c`.
    pub fn get(&self, r: usize, c: usize) -> (s: State)
        requires
            in_range(r as int, c as int),
        ensures
            s == self.cell(r as int, c as int),
    {
        self.cells[r][c]
    }

    /// Puts mark `m` into the empty cell at row `r`, column `c`.
    pub fn place(&mut self, r: usize, c: usize, m: State)
        requires
            in_range(r as int, c as int),
            old(self).cell(r as int, c as int) == State::Empty,
            m.is_player(),
        ensures
            old(self).placed(*final(self), r as int, c as int, m),
    {
        let mut row = self.cells[r];
        row[c] = m;
        self.cells[r] = row;
    }

    /// Whether every cell holds a player mark.
    pub fn is_full(&self) -> (b: bool)
        ensures
            b == self.spec_is_full(),
    {
        let mut r: usize = 0;
        while r < ROWS
            invariant
                r <= ROWS,
                forall|r2: int, c2: int|
                    0 <= r2 < r && 0 <= c2 < COLS ==> #[trigger] self.cell(r2, c2).is_player(),
            decreases ROWS - r,
        {
            let mut c: usize = 0;
            while c < COLS
                invariant
                    r < ROWS,
                    c <= COLS,
                    forall|r2: int, c2: int|
                        0 <= r2 < r && 0 <= c2 < COLS ==> #[trigger] self.cell(r2, c2).is_player(),
                    forall|c2: int| 0 <= c2 < c ==> #[trigger] self.cell(r as int, c2).is_player(),
                decreases COLS - c,
            {
                if self.cells[r][c] == State::Empty {
                    assert(!self.cell(r as int, c as int).is_player());
                    return false;
                }
                c = c + 1;
            }
            r = r + 1;
        }
        true
    }
}

/// Placing a mark into an empty cell adds one to the number of marked cells.
pub proof fn lemma_place_fills_one(before: Board, after: Board, r: int, c: int, m: State)
    requires
        in_range(r, c),
        before.cell(r, c) == State::Empty,
        m.is_player(),
        before.placed(after, r, c, m),
    ensures
        after.filled() == before.filled() + 1,
{
    lemma_place_filled_upto(before, after, r, c, m, 9);
}

proof fn lemma_place_filled_upto(before: Board, after: Board, r: int, c: int, m: State, n: int)
    requires
        in_range(r, c),
        before.cell(r, c) == State::Empty,
        m.is_player(),
        before.placed(after, r, c, m),
        0 <= n <= 9,
    ensures
        after.filled_upto(n) == before.filled_upto(n) + if n > 3 * r + c {
            1nat
        } else {
            0nat
        },
    decreases n,
{
    if n > 0 {
        lemma_place_filled_upto(before, after, r, c, m, n - 1);
        let (r2, c2) = cell_of_index(n - 1);
        assert(in_range(r2, c2));
        assert((r2, c2) == (r, c) <==> n - 1 == 3 * r + c);
    }
}

/// The board is full exactly when all nine cells are counted as marked.
pub proof fn lemma_full_iff_nine(b: Board)
    ensures
        b.filled() <= 9,
        b.spec_is_full() <==> b.filled() == 9,
{
    lemma_filled_upto_bound(b, 9);
    if b.filled() == 9 {
        assert forall|r: int, c: int| in_range(r, c) implies #[trigger] b.cell(r, c).is_player() by {
            let i = 3 * r + c;
            assert(cell_of_index(i) == (r, c));
            assert(b.cell(cell_of_index(i).0, cell_of_index(i).1).is_player());
        }
    }
    if b.spec_is_full() {
        assert forall|i: int| 0 <= i < 9 implies #[trigger] b.cell(
            cell_of_index(i).0,
            cell_of_index(i).1,
        ).is_player() by {
            assert(in_range(cell_of_index(i).0, cell_of_index(i).1));
        }
    }
}

proof fn lemma_filled_upto_bound(b: Board, n: int)
    requires
        0 <= n,
    ensures
        b.filled_upto(n) <= n,
        b.filled_upto(n) == n <==> forall|i: int|
            0 <= i < n ==> #[trigger] b.cell(cell_of_index(i).0, cell_of_index(i).1).is_player(),
    decreases n,
{
    if n > 0 {
        lemma_filled_upto_bound(b, n - 1);
    }
}

} // verus!
