//! Failures that the board and its coordinates can report.

use vstd::prelude::*;

verus! {

/// What can go wrong when a coordinate is built or a piece is removed.
#[non_exhaustive]
#[derive(Debug, Clone, Copy, PartialEq, Eq, Structural)]
pub enum ChessError {
    /// A coordinate with a component outside `0..=7`; carries the raw values.
    OutOfBoard { x: i8, y: i8 },
    /// No piece stands on the square that was named.
    NoSuchPiece,
}

} // verus!
