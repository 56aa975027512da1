//! A chess rules engine with a one-ply material search.
//!
//! Coordinates, pieces and boards are plain data with a mathematical model; the
//! engine validates and applies moves against its own legal-move generator, and the
//! solver picks a move by scoring every legal continuation of the side to move.
pub mod error;
pub mod text;
pub mod position;
pub mod piece;
pub mod board;
pub mod rules;
pub mod engine;
pub mod solver;
pub mod input;

pub use error::ChessError;
pub use position::{Column, Move, Position, Row};
pub use piece::{ChessColour, ChessPiece, ChessPieceKind};
pub use board::{Cell, ChessBoard};
pub use engine::{ChessEngine, GameState, GameStatus};
pub use input::parse_input_to_move;
pub use solver::{score_board, select_move, solve_next_move, BoardScore};
