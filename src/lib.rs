//! A two-player tic-tac-toe engine: the board, move validation, win
//! evaluation and the turn-by-turn game state, each with a proved contract.
pub mod board;
pub mod winner;
pub mod moves;
pub mod game;
