//! Piece-movement rules of a chess board: coordinates, pieces, the board and
//! the squares a piece may move to.

pub mod board;
pub mod error;
pub mod lemmas;
pub mod moves;
pub mod piece;
pub mod position;
pub mod render;

pub use board::Board;
pub use error::ChessError;
pub use piece::{Color, Piece, PieceKind, Pieces};
pub use position::BoardPosition;
pub use render::{determine_position, TextureOffset, Tile};
