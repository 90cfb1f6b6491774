//! Turning the two characters a player types into a board position.
use vstd::prelude::*;
use crate::board::{Board, State, in_range};

verus! {

/// Why a move was refused. The board is left as it was in every case.
#[derive(Clone, Copy, Debug, PartialEq, Eq, Hash, Structural)]
pub enum MoveError {
    /// The input is not exactly two characters long.
    MalformedLength,
    /// The first character is not a decimal digit.
    RowNotDigit,
    /// The row digit is not 1, 2 or 3.
    RowOutOfRange,
    /// The second character is not a decimal digit.
    ColNotDigit,
    /// The column digit is not 1, 2 or 3.
    ColOutOfRange,
    /// The chosen cell already holds a mark.
    CellOccupied,
}

/// The value of `c` as an ASCII decimal digit, if it is one.
pub open spec fn spec_digit(c: char) -> Option<u32> {
    if '0' <= c && c <= '9' {
        Some((c as u32 - '0' as u32) as u32)
    } else {
        None
    }
}

/// Whether `c` is the digit 1, 2 or 3, naming a row or a column.
pub open spec fn is_coordinate(c: char) -> bool {
    '1' <= c && c <= '3'
}

/// The zero-based row or column named by the digit `c`.
pub open spec fn coordinate_of(c: char) -> int {
    c as int - '1' as int
}

/// The digit that names zero-based row or column `i`: `'1'` for 0.
pub open spec fn coordinate_char(i: int) -> char {
    ('1' as int + i) as char
}

/// The position that the text `s` names, or the first check that it fails:
/// its length, then the row character, then the column character.
pub open spec fn spec_parse(s: Seq<char>) -> Result<(usize, usize), MoveError> {
    if s.len() != 2 {
        Err(MoveError::MalformedLength)
    } else if spec_digit(s[0]) is None {
        Err(MoveError::RowNotDigit)
    } else if !is_coordinate(s[0]) {
        Err(MoveError::RowOutOfRange)
    } else if spec_digit(s[1]) is None {
        Err(MoveError::ColNotDigit)
    } else if !is_coordinate(s[1]) {
        Err(MoveError::ColOutOfRange)
    } else {
        Ok((coordinate_of(s[0]) as usize, coordinate_of(s[1]) as usize))
    }
}

/// `spec_parse`, then a refusal if the named cell of `b` is not empty.
pub open spec fn spec_validate(b: Board, s: Seq<char>) -> Result<(usize, usize), MoveError> {
    match spec_parse(s) {
        Err(e) => Err(e),
        Ok((r, c)) => if b.cell(r as int, c as int) == State::Empty {
            Ok((r, c))
        } else {
            Err(MoveError::CellOccupied)
        },
    }
}

/// The value of `c` as a decimal digit, or `None` when it is not one of the
/// ASCII digits `0` to `9`.
pub fn digit_value(c: char) -> (r: Option<u32>)
    ensures
        r == spec_digit(c),
{
    if '0' <= c && c <= '9' {
        Some(c as u32 - '0' as u32)
    } else {
        None
    }
}

/// The zero-based row or column that the character `c` names.
fn coordinate(c: char, not_digit: MoveError, out_of_range: MoveError) -> (r: Result<
    usize,
    MoveError,
>)
    ensures
        spec_digit(c) is None ==> r == Err::<usize, MoveError>(not_digit),
        spec_digit(c) is Some && !is_coordinate(c) ==> r == Err::<usize, MoveError>(out_of_range),
        is_coordinate(c) ==> r == Ok::<usize, MoveError>(coordinate_of(c) as usize),
{
    match digit_value(c) {
        None => Err(not_digit),
        Some(d) => if 1 <= d && d <= 3 {
            Ok((d - 1) as usize)
        } else {
            Err(out_of_range)
        },
    }
}

/// Reads a move written as a row digit and a column digit, each from 1 to 3
/// (`"11"` is the top-left cell), into a zero-based (row, column) pair. The
/// checks run in a fixed order and the first that fails is reported:
/// length, row digit, row range, column digit, column range.
pub fn parse_move(input: &str) -> (r: Result<(usize, usize), MoveError>)
    ensures
        r == spec_parse(input@),
        r matches Ok((row, col)) ==> in_range(row as int, col as int),
{
    let mut chars = input.chars();
    let first = chars.next();
    let second = chars.next();
    let third = chars.next();
    match (first, second, third) {
        (Some(a), Some(b), None) => {
            assert(input@ =~= seq![a, b]);
            let row = match coordinate(a, MoveError::RowNotDigit, MoveError::RowOutOfRange) {
                Ok(row) => row,
                Err(e) => return Err(e),
            };
            let col = match coordinate(b, MoveError::ColNotDigit, MoveError::ColOutOfRange) {
                Ok(col) => col,
                Err(e) => return Err(e),
            };
            Ok((row, col))
        },
        _ => Err(MoveError::MalformedLength),
    }
}

/// Reads a move as `parse_move` does and refuses it with `CellOccupied` when
/// the named cell of `board` already holds a mark.
pub fn validate_move(board: &Board, input: &str) -> (r: Result<(usize, usize), MoveError>)
    ensures
        r == spec_validate(*board, input@),
        r matches Ok((row, col)) ==> in_range(row as int, col as int) && board.cell(
            row as int,
            col as int,
        ) == State::Empty,
{
    match parse_move(input) {
        Err(e) => Err(e),
        Ok((row, col)) => if board.get(row, col) == State::Empty {
            Ok((row, col))
        } else {
            Err(MoveError::CellOccupied)
        },
    }
}

/// Plays `turn`'s move written as `input`: when it is valid, its mark goes
/// into the named cell and the position is returned; otherwise the board is
/// left untouched and the reason is returned.
pub fn move_player(board: &mut Board, turn: State, input: &str) -> (r: Result<
    (usize, usize),
    MoveError,
>)
    requires
        turn.is_player(),
    ensures
        r == spec_validate(*old(board), input@),
        r matches Ok((row, col)) ==> in_range(row as int, col as int) && old(board).cell(
            row as int,
            col as int,
        ) == State::Empty && old(board).placed(*final(board), row as int, col as int, turn),
        r is Err ==> *final(board) == *old(board),
{
    match validate_move(board, input) {
        Err(e) => Err(e),
        Ok((row, col)) => {
            board.place(row, col, turn);
            Ok((row, col))
        },
    }
}

/// The checks on a move's text come in a fixed order: when the row
/// character is wrong, the move is refused for its row whatever the column
/// character is.
pub proof fn lemma_row_checked_first(s: Seq<char>)
    requires
        s.len() == 2,
        !is_coordinate(s[0]),
    ensures
        spec_parse(s) == Err::<(usize, usize), MoveError>(MoveError::RowNotDigit) || spec_parse(s)
            == Err::<(usize, usize), MoveError>(MoveError::RowOutOfRange),
{
}

/// Writing a row and a column as the digits one above their zero-based
/// values reads back as that row and column, on any board where the cell is
/// empty.
pub proof fn lemma_parse_round_trip(b: Board, row: usize, col: usize)
    requires
        in_range(row as int, col as int),
        b.cell(row as int, col as int) == State::Empty,
    ensures
        spec_parse(seq![coordinate_char(row as int), coordinate_char(col as int)]) == Ok::<
            (usize, usize),
            MoveError,
        >((row, col)),
        spec_validate(b, seq![coordinate_char(row as int), coordinate_char(col as int)]) == Ok::<
            (usize, usize),
            MoveError,
        >((row, col)),
{
}

} // verus!
