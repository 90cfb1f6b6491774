//! One game: the board, whose turn it is, and how many moves were made.
use vstd::prelude::*;
use crate::board::{Board, State, in_range, lemma_full_iff_nine, lemma_place_fills_one};
use crate::moves::{MoveError, move_player, spec_validate};
use crate::winner::{LINES, check_winner, completes, lemma_winner_from, line_cell, spec_winner};

verus! {

/// Number of cells, and so the most moves a game can have.
pub const CELLS: usize = 9;

/// Where a game stands.
#[derive(Clone, Copy, Debug, PartialEq, Eq, Structural)]
pub enum Phase {
    /// Moves are still accepted.
    InProgress,
    /// The player with this mark completed a line.
    Won(State),
    /// The board filled up with no completed line.
    Drawn,
}

/// A game in play. Player X moves first.
#[derive(Clone, Copy, Debug)]
pub struct Game {
    pub board: Board,
    /// The mark of the player to move.
    pub turn: State,
    /// Number of moves accepted so far.
    pub valid_moves: usize,
}

impl Game {
    /// A player is to move and every accepted move has filled one cell.
    pub open spec fn wf(self) -> bool {
        &&& self.turn.is_player()
        &&& self.valid_moves == self.board.filled()
    }

    /// Won once a line is complete, drawn once all nine moves are made with
    /// no complete line, in progress otherwise.
    pub open spec fn spec_phase(self) -> Phase {
        if spec_winner(self.board) != State::Empty {
            Phase::Won(spec_winner(self.board))
        } else if self.valid_moves == CELLS {
            Phase::Drawn
        } else {
            Phase::InProgress
        }
    }

    /// A game on an empty board with X to move.
    pub fn new() -> (g: Game)
        ensures
            g.wf(),
            g.board.is_blank(),
            g.turn == State::X,
            g.valid_moves == 0,
            g.spec_phase() == Phase::InProgress,
    {
        let g = Game { board: Board::new(), turn: State::X, valid_moves: 0 };
        proof {
            lemma_blank_board(g.board);
        }
        g
    }

    /// Where the game stands.
    pub fn phase(&self) -> (p: Phase)
        requires
            self.wf(),
        ensures
            p == self.spec_phase(),
    {
        let w = check_winner(&self.board);
        if w != State::Empty {
            Phase::Won(w)
        } else if self.valid_moves == CELLS {
            Phase::Drawn
        } else {
            Phase::InProgress
        }
    }

    /// Plays the move written as `input` for the player to move. An accepted
    /// move marks its cell, counts one more move and passes the turn; a
    /// refused one changes nothing, and the same player moves again.
    pub fn play(&mut self, input: &str) -> (r: Result<(usize, usize), MoveError>)
        requires
            old(self).wf(),
            old(self).spec_phase() == Phase::InProgress,
        ensures
            final(self).wf(),
            r == spec_validate(old(self).board, input@),
            r matches Ok((row, col)) ==> {
                &&& old(self).board.placed(final(self).board, row as int, col as int, old(self).turn)
                &&& final(self).turn == old(self).turn.spec_opponent()
                &&& final(self).valid_moves == old(self).valid_moves + 1
            },
            r is Err ==> *final(self) == *old(self),
    {
        let ghost before = self.board;
        let result = move_player(&mut self.board, self.turn, input);
        match result {
            Ok((row, col)) => {
                proof {
                    lemma_place_fills_one(before, self.board, row as int, col as int, self.turn);
                    lemma_full_iff_nine(self.board);
                }
                self.valid_moves = self.valid_moves + 1;
                self.turn = self.turn.opponent();
            },
            Err(_) => {},
        }
        result
    }
}

proof fn lemma_blank_board(b: Board)
    requires
        b.is_blank(),
    ensures
        b.filled() == 0,
        spec_winner(b) == State::Empty,
{
    lemma_blank_filled_upto(b, 9);
    lemma_winner_from(b, 0);
    assert forall|k: int| 0 <= k < LINES implies !#[trigger] completes(b, k) by {
        assert(in_range(line_cell(k, 0).0, line_cell(k, 0).1));
    }
}

proof fn lemma_blank_filled_upto(b: Board, n: int)
    requires
        b.is_blank(),
        0 <= n <= 9,
    ensures
        b.filled_upto(n) == 0,
    decreases n,
{
    if n > 0 {
        lemma_blank_filled_upto(b, n - 1);
    }
}

/// A game whose board is full with no complete line is drawn, not won.
pub proof fn lemma_full_without_line_is_draw(g: Game)
    requires
        g.wf(),
        g.board.spec_is_full(),
        forall|k: int| 0 <= k < LINES ==> !#[trigger] completes(g.board, k),
    ensures
        g.spec_phase() == Phase::Drawn,
{
    lemma_full_iff_nine(g.board);
    lemma_winner_from(g.board, 0);
}

} // verus!
