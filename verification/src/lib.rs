//! Rules engine and search for Keres, an abstract strategy game played on a
//! 9x9 board with stackable pieces.

pub mod board;
pub mod cli;
pub mod engine;
pub mod game;
pub mod game_over;
pub mod legality;
pub mod protocol;
pub mod tui;

pub use board::{Board, Color, Piece, PieceType, Position, BINARY_SIZE, BOARD_DIMENSION, BOARD_SIZE};
pub use game::{Game, Move, MoveGenerator, PotentialMove};
pub use tui::{App, GameState};
