//! Finding a completed line of three equal marks.
use vstd::prelude::*;
use crate::board::{Board, State, in_range};

verus! {

/// Number of lines that win: three rows, three columns and two diagonals.
pub const LINES: usize = 8;

/// Cell `j` (`0 <= j < 3`) of line `k` (`0 <= k < 8`), in the order in which
/// lines are checked: rows top to bottom, columns left to right, the main
/// diagonal, then the anti-diagonal from the bottom-left corner.
pub open spec fn line_cell(k: int, j: int) -> (int, int) {
    if k < 3 {
        (k, j)
    } else if k < 6 {
        (j, k - 3)
    } else if k == 6 {
        (j, j)
    } else {
        (2 - j, j)
    }
}

/// The state of cell `j` of line `k`.
pub open spec fn line_at(b: Board, k: int, j: int) -> State {
    b.cell(line_cell(k, j).0, line_cell(k, j).1)
}

/// Whether line `k` holds three equal player marks.
pub open spec fn completes(b: Board, k: int) -> bool {
    &&& line_at(b, k, 0).is_player()
    &&& line_at(b, k, 1) == line_at(b, k, 0)
    &&& line_at(b, k, 2) == line_at(b, k, 0)
}

/// The mark of the first completed line among lines `k..8`, or `Empty`.
pub open spec fn winner_from(b: Board, k: int) -> State
    decreases LINES - k,
{
    if k >= LINES || k < 0 {
        State::Empty
    } else if completes(b, k) {
        line_at(b, k, 0)
    } else {
        winner_from(b, k + 1)
    }
}

/// The winner of a board: the mark of the first completed line in checking
/// order, or `Empty` when no line is complete.
pub open spec fn spec_winner(b: Board) -> State {
    winner_from(b, 0)
}

/// Cell `j` of line `k`.
fn line_index(k: usize, j: usize) -> (rc: (usize, usize))
    requires
        k < LINES,
        j < 3,
    ensures
        rc.0 as int == line_cell(k as int, j as int).0,
        rc.1 as int == line_cell(k as int, j as int).1,
        in_range(rc.0 as int, rc.1 as int),
{
    if k < 3 {
        (k, j)
    } else if k < 6 {
        (j, k - 3)
    } else if k == 6 {
        (j, j)
    } else {
        (2 - j, j)
    }
}

/// Whether line `k` of `board` holds three equal player marks.
pub fn line_complete(board: &Board, k: usize) -> (r: bool)
    requires
        k < LINES,
    ensures
        r == completes(*board, k as int),
{
    let (r0, c0) = line_index(k, 0);
    let (r1, c1) = line_index(k, 1);
    let (r2, c2) = line_index(k, 2);
    let a = board.get(r0, c0);
    a != State::Empty && board.get(r1, c1) == a && board.get(r2, c2) == a
}

/// The mark of the first completed line (rows, then columns, then the main
/// diagonal, then the anti-diagonal), or `Empty` when there is none. The
/// board is only read.
pub fn check_winner(board: &Board) -> (r: State)
    ensures
        r == spec_winner(*board),
        r == State::Empty <==> forall|k: int| 0 <= k < LINES ==> !#[trigger] completes(*board, k),
        r != State::Empty ==> exists|k: int|
            0 <= k < LINES && #[trigger] completes(*board, k) && line_at(*board, k, 0) == r,
{
    proof {
        lemma_winner_from(*board, 0);
    }
    let mut k: usize = 0;
    while k < LINES
        invariant
            k <= LINES,
            spec_winner(*board) == winner_from(*board, k as int),
        decreases LINES - k,
    {
        if line_complete(board, k) {
            let (r, c) = line_index(k, 0);
            return board.get(r, c);
        }
        k = k + 1;
    }
    State::Empty
}

/// What `winner_from(b, k)` is, stated without the checking order: `Empty`
/// exactly when no line from `k` on is complete, and otherwise the mark of
/// one of them.
pub proof fn lemma_winner_from(b: Board, k: int)
    requires
        0 <= k <= LINES,
    ensures
        winner_from(b, k) == State::Empty <==> forall|k2: int|
            k <= k2 < LINES ==> !#[trigger] completes(b, k2),
        winner_from(b, k) != State::Empty ==> exists|k2: int|
            k <= k2 < LINES && #[trigger] completes(b, k2) && line_at(b, k2, 0) == winner_from(
                b,
                k,
            ),
    decreases LINES - k,
{
    if k < LINES {
        lemma_winner_from(b, k + 1);
        if completes(b, k) {
            assert(completes(b, k) && line_at(b, k, 0) == winner_from(b, k));
        }
    }
}

/// The winner depends on the cells alone: two boards that agree on every
/// cell have the same winner, so evaluating an unchanged board again gives
/// the same result.
pub proof fn lemma_winner_depends_on_cells(b1: Board, b2: Board)
    requires
        b1.same_cells(b2),
    ensures
        spec_winner(b1) == spec_winner(b2),
{
    assert forall|k: int| 0 <= k <= LINES implies winner_from(b1, k) == winner_from(b2, k) by {
        lemma_winner_from_same_cells(b1, b2, k);
    }
}

proof fn lemma_winner_from_same_cells(b1: Board, b2: Board, k: int)
    requires
        b1.same_cells(b2),
        0 <= k <= LINES,
    ensures
        winner_from(b1, k) == winner_from(b2, k),
    decreases LINES - k,
{
    if k < LINES {
        lemma_winner_from_same_cells(b1, b2, k + 1);
        assert(in_range(line_cell(k, 0).0, line_cell(k, 0).1));
        assert(in_range(line_cell(k, 1).0, line_cell(k, 1).1));
        assert(in_range(line_cell(k, 2).0, line_cell(k, 2).1));
    }
}

} // verus!
