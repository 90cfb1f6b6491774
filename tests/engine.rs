use tictactoe::board::{Board, State};
use tictactoe::game::{Game, Phase};
use tictactoe::moves::{digit_value, move_player, parse_move, validate_move, MoveError};
use tictactoe::winner::{check_winner, line_complete};

const X: State = State::X;
const O: State = State::O;
const E: State = State::Empty;

fn board(cells: [[State; 3]; 3]) -> Board {
    Board { cells }
}

#[test]
fn evaluation_is_repeatable() {
    let b = board([[X, O, X], [E, X, O], [O, E, X]]);
    let first = check_winner(&b);
    let second = check_winner(&b);
    assert_eq!(first, X);
    assert_eq!(first, second);
    let none = board([[X, O, E], [E, E, E], [E, E, E]]);
    assert_eq!(check_winner(&none), check_winner(&none));
    assert_eq!(check_winner(&none), E);
}

#[test]
fn row_failure_reported_before_column_failure() {
    assert_eq!(parse_move("9a"), Err(MoveError::RowOutOfRange));
    assert_eq!(parse_move("a9"), Err(MoveError::RowNotDigit));
    assert_eq!(parse_move("0x"), Err(MoveError::RowOutOfRange));
    assert_eq!(parse_move("x0"), Err(MoveError::RowNotDigit));
}

#[test]
fn occupied_cell_is_refused() {
    let mut b = Board::new();
    assert_eq!(move_player(&mut b, X, "11"), Ok((0, 0)));
    let before = b;
    assert_eq!(move_player(&mut b, O, "11"), Err(MoveError::CellOccupied));
    assert_eq!(b.cells, before.cells);
    assert_eq!(b.get(0, 0), X);
}

#[test]
fn row_win() {
    let b = board([[X, X, X], [E, E, E], [E, E, E]]);
    assert_eq!(check_winner(&b), X);
}

#[test]
fn column_win() {
    let b = board([[X, X, O], [E, X, O], [E, E, O]]);
    assert_eq!(check_winner(&b), O);
    let middle = board([[X, O, E], [X, O, E], [E, O, X]]);
    assert_eq!(check_winner(&middle), O);
}

#[test]
fn diagonal_wins() {
    let main = board([[X, E, E], [E, X, E], [E, E, X]]);
    assert_eq!(check_winner(&main), X);
    let anti = board([[E, E, O], [E, O, E], [O, E, E]]);
    assert_eq!(check_winner(&anti), O);
}

#[test]
fn rows_are_checked_before_columns() {
    // Row 0 is X's and column 2 is O's: the row is found first.
    let b = board([[X, X, X], [E, E, O], [E, E, O]]);
    assert_eq!(check_winner(&b), X);
    let c = board([[O, X, X], [O, X, E], [O, E, X]]);
    assert_eq!(check_winner(&c), O);
}

#[test]
fn no_line_means_no_winner() {
    assert_eq!(check_winner(&Board::new()), E);
    let b = board([[X, O, X], [X, O, O], [O, X, X]]);
    assert_eq!(check_winner(&b), E);
    for k in 0..8 {
        assert!(!line_complete(&b, k));
    }
    let mixed = board([[X, X, O], [E, E, E], [E, E, E]]);
    assert_eq!(check_winner(&mixed), E);
}

#[test]
fn full_board_without_line_is_drawn() {
    let mut g = Game::new();
    // X O X / X O O / O X X, played in alternating turns.
    for m in ["11", "12", "13", "22", "21", "23", "32", "31", "33"] {
        assert_eq!(g.phase(), Phase::InProgress);
        assert!(g.play(m).is_ok());
    }
    assert_eq!(g.valid_moves, 9);
    assert!(g.board.is_full());
    assert_eq!(g.phase(), Phase::Drawn);
}

#[test]
fn win_ends_the_game() {
    let mut g = Game::new();
    for m in ["11", "21", "12", "22", "13"] {
        assert_eq!(g.phase(), Phase::InProgress);
        assert!(g.play(m).is_ok());
    }
    assert_eq!(g.phase(), Phase::Won(X));
    assert_eq!(g.valid_moves, 5);
}

#[test]
fn second_player_can_win() {
    let mut g = Game::new();
    for m in ["11", "13", "12", "23", "31", "33"] {
        assert!(g.play(m).is_ok());
    }
    assert_eq!(g.phase(), Phase::Won(O));
}

#[test]
fn center_input_maps_to_center_cell() {
    assert_eq!(parse_move("22"), Ok((1, 1)));
    assert_eq!(parse_move("11"), Ok((0, 0)));
    assert_eq!(parse_move("33"), Ok((2, 2)));
    assert_eq!(parse_move("13"), Ok((0, 2)));
    assert_eq!(parse_move("31"), Ok((2, 0)));
}

#[test]
fn every_position_round_trips() {
    let digits = ['1', '2', '3'];
    for r in 0..3 {
        for c in 0..3 {
            let text: String = [digits[r], digits[c]].iter().collect();
            assert_eq!(parse_move(&text), Ok((r, c)));
        }
    }
}

#[test]
fn turn_alternates_only_on_accepted_moves() {
    let mut g = Game::new();
    assert_eq!(g.turn, X);
    assert_eq!(g.play("22"), Ok((1, 1)));
    assert_eq!(g.turn, O);
    assert_eq!(g.play("22"), Err(MoveError::CellOccupied));
    assert_eq!(g.turn, O);
    assert_eq!(g.play("4"), Err(MoveError::MalformedLength));
    assert_eq!(g.turn, O);
    assert_eq!(g.valid_moves, 1);
    assert_eq!(g.play("11"), Ok((0, 0)));
    assert_eq!(g.turn, X);
    assert_eq!(g.board.get(0, 0), O);
    assert_eq!(g.board.get(1, 1), X);
    assert_eq!(g.valid_moves, 2);
}

#[test]
fn each_error_kind() {
    assert_eq!(parse_move(""), Err(MoveError::MalformedLength));
    assert_eq!(parse_move("1"), Err(MoveError::MalformedLength));
    assert_eq!(parse_move("123"), Err(MoveError::MalformedLength));
    assert_eq!(parse_move("x1"), Err(MoveError::RowNotDigit));
    assert_eq!(parse_move("41"), Err(MoveError::RowOutOfRange));
    assert_eq!(parse_move("01"), Err(MoveError::RowOutOfRange));
    assert_eq!(parse_move("1-"), Err(MoveError::ColNotDigit));
    assert_eq!(parse_move("14"), Err(MoveError::ColOutOfRange));
    assert_eq!(parse_move("10"), Err(MoveError::ColOutOfRange));
    let b = board([[E, E, E], [E, O, E], [E, E, E]]);
    assert_eq!(validate_move(&b, "22"), Err(MoveError::CellOccupied));
    assert_eq!(validate_move(&b, "21"), Ok((1, 0)));
}

#[test]
fn length_counts_characters() {
    // Two characters, one of them wider than a byte.
    assert_eq!(parse_move("é1"), Err(MoveError::RowNotDigit));
    assert_eq!(parse_move("1é"), Err(MoveError::ColNotDigit));
    // Digits outside ASCII are not accepted.
    assert_eq!(parse_move("١١"), Err(MoveError::RowNotDigit));
    assert_eq!(parse_move("é"), Err(MoveError::MalformedLength));
}

#[test]
fn digits_and_glyphs() {
    assert_eq!(digit_value('0'), Some(0));
    assert_eq!(digit_value('7'), Some(7));
    assert_eq!(digit_value('9'), Some(9));
    assert_eq!(digit_value('a'), None);
    assert_eq!(digit_value('/'), None);
    assert_eq!(X.glyph(), 'X');
    assert_eq!(O.glyph(), 'O');
    assert_eq!(E.glyph(), ' ');
    assert_eq!(X.opponent(), O);
    assert_eq!(O.opponent(), X);
}

#[test]
fn placing_changes_one_cell() {
    let mut b = Board::new();
    assert!(!b.is_full());
    b.place(2, 1, O);
    assert_eq!(b.get(2, 1), O);
    for r in 0..3 {
        for c in 0..3 {
            if (r, c) != (2, 1) {
                assert_eq!(b.get(r, c), E);
            }
        }
    }
}
