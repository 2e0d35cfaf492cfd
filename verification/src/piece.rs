//! Pieces: a colour, a kind and a square; and the pieces of a position.

use crate::position::{on_board, BoardPosition};
use vstd::prelude::*;

verus! {

/// The two sides.
#[derive(Debug, Clone, Copy, PartialEq, Eq, Structural)]
pub enum Color {
    Black,
    White,
}

/// What a piece is, and whose.
#[derive(Debug, Clone, Copy, PartialEq, Eq, Structural)]
pub enum PieceKind {
    Pawn(Color),
    Rook(Color),
    Knight(Color),
    Bishop(Color),
    Queen(Color),
    King(Color),
}

impl PieceKind {
    /// The side that the piece belongs to.
    pub open spec fn spec_color(self) -> Color {
        match self {
            PieceKind::Pawn(color) => color,
            PieceKind::Rook(color) => color,
            PieceKind::Knight(color) => color,
            PieceKind::Bishop(color) => color,
            PieceKind::Queen(color) => color,
            PieceKind::King(color) => color,
        }
    }

    /// The side that the piece belongs to.
    #[verifier::when_used_as_spec(spec_color)]
    pub fn color(self) -> (color: Color)
        ensures
            color == self.spec_color(),
    {
        match self {
            PieceKind::Pawn(color)
            | PieceKind::Rook(color)
            | PieceKind::Knight(color)
            | PieceKind::Bishop(color)
            | PieceKind::Queen(color)
            | PieceKind::King(color) => color,
        }
    }
}

/// A piece on a square.
#[derive(Debug, Clone, Copy, PartialEq, Eq, Structural)]
pub struct Piece {
    pub pos: BoardPosition,
    pub kind: PieceKind,
}

impl Piece {
    /// The piece of kind `kind` on file `x` and rank `y`.
    pub open spec fn at(x: int, y: int, kind: PieceKind) -> Piece {
        Piece { pos: BoardPosition::at(x, y), kind }
    }

    /// The piece of kind `kind` on file `x` and rank `y`, both on the board.
    pub fn new(x: i8, y: i8, kind: PieceKind) -> (piece: Self)
        requires
            on_board(x as int),
            on_board(y as int),
        ensures
            piece == Piece::at(x as int, y as int, kind),
            piece.pos.valid(),
    {
        Self { pos: BoardPosition::new(x, y), kind }
    }
}

/// The rank on which the pawns of `color` start.
pub open spec fn pawn_rank(color: Color) -> int {
    match color {
        Color::Black => 1,
        Color::White => 6,
    }
}

/// The rank on which the other pieces of `color` start.
pub open spec fn back_rank(color: Color) -> int {
    match color {
        Color::Black => 0,
        Color::White => 7,
    }
}

/// The eight pawns of `color` at the start, file 0 first.
pub open spec fn pawn_row(color: Color) -> Seq<Piece> {
    Seq::new(8, |x: int| Piece::at(x, pawn_rank(color), PieceKind::Pawn(color)))
}

/// The eight other pieces of `color` at the start: rooks on files 0 and 7,
/// knights on 1 and 6, bishops on 2 and 5, the king on 3 and the queen on 4.
pub open spec fn back_row(color: Color) -> Seq<Piece> {
    let y = back_rank(color);
    seq![
        Piece::at(0, y, PieceKind::Rook(color)),
        Piece::at(7, y, PieceKind::Rook(color)),
        Piece::at(1, y, PieceKind::Knight(color)),
        Piece::at(6, y, PieceKind::Knight(color)),
        Piece::at(2, y, PieceKind::Bishop(color)),
        Piece::at(5, y, PieceKind::Bishop(color)),
        Piece::at(3, y, PieceKind::King(color)),
        Piece::at(4, y, PieceKind::Queen(color)),
    ]
}

/// The sixteen pieces of `color` at the start: pawns, then the back rank.
pub open spec fn home_side(color: Color) -> Seq<Piece> {
    pawn_row(color) + back_row(color)
}

/// The position at the start of a game: Black's pieces, then White's.
pub open spec fn standard_setup() -> Seq<Piece> {
    home_side(Color::Black) + home_side(Color::White)
}

/// The pieces of a position, in the order in which they were added.
#[derive(Debug, Clone, PartialEq, Eq)]
pub struct Pieces(Vec<Piece>);

impl View for Pieces {
    type V = Seq<Piece>;

    closed spec fn view(&self) -> Seq<Piece> {
        self.0@
    }
}

impl Pieces {
    /// No pieces.
    pub fn new() -> (pieces: Self)
        ensures
            pieces@ == Seq::<Piece>::empty(),
    {
        Pieces(Vec::new())
    }
}

impl std::ops::Deref for Pieces {
    type Target = Vec<Piece>;

    /// The pieces as a vector, to read.
    fn deref(&self) -> (pieces: &Vec<Piece>)
        ensures
            pieces@ == self@,
    {
        &self.0
    }
}

impl std::ops::DerefMut for Pieces {
    /// The pieces as a vector, to change.
    fn deref_mut(&mut self) -> (pieces: &mut Vec<Piece>)
        ensures
            pieces@ == old(self)@,
            final(self)@ == final(pieces)@,
    {
        &mut self.0
    }
}

/// Appends the sixteen starting pieces of `color`.
fn push_home_side(pieces: &mut Vec<Piece>, color: Color)
    ensures
        final(pieces)@ == old(pieces)@ + home_side(color),
{
    let pawn_y: i8 = if color == Color::Black { 1 } else { 6 };
    let mut pawn_x: i8 = 0;
    while pawn_x < 8
        invariant
            0 <= pawn_x <= 8,
            pawn_y == pawn_rank(color),
            pieces@ == old(pieces)@ + pawn_row(color).take(pawn_x as int),
        decreases 8 - pawn_x,
    {
        pieces.push(Piece::new(pawn_x, pawn_y, PieceKind::Pawn(color)));
        pawn_x += 1;
    }
    let piece_y: i8 = if color == Color::Black { 0 } else { 7 };
    pieces.push(Piece::new(0, piece_y, PieceKind::Rook(color)));
    pieces.push(Piece::new(7, piece_y, PieceKind::Rook(color)));
    pieces.push(Piece::new(1, piece_y, PieceKind::Knight(color)));
    pieces.push(Piece::new(6, piece_y, PieceKind::Knight(color)));
    pieces.push(Piece::new(2, piece_y, PieceKind::Bishop(color)));
    pieces.push(Piece::new(5, piece_y, PieceKind::Bishop(color)));
    pieces.push(Piece::new(3, piece_y, PieceKind::King(color)));
    pieces.push(Piece::new(4, piece_y, PieceKind::Queen(color)));
}

impl Default for Pieces {
    /// The position at the start of a game.
    fn default() -> (pieces: Self)
        ensures
            pieces@ == standard_setup(),
    {
        let mut pieces: Vec<Piece> = Vec::with_capacity(32);
        push_home_side(&mut pieces, Color::Black);
        push_home_side(&mut pieces, Color::White);
        Pieces(pieces)
    }
}

} // verus!
