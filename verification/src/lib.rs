//! Referee for the king-and-queen-versus-king endgame puzzle.

pub mod board;
pub mod game;
pub mod piece;
pub mod position;

pub use board::{AttackMap, ChessBoardCell};
pub use game::{Chess, GameOver, MoveRequest};
pub use piece::ChessPiece;
pub use position::ChessBoardPosition;
