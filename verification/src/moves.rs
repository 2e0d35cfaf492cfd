//! The squares a piece may move to, by the way its kind moves. Check,
//! castling, en passant and promotion are not considered.

use crate::board::{occupant, Board};
use crate::piece::{pawn_rank, Color, Piece, PieceKind};
use crate::position::BoardPosition;
use vstd::prelude::*;

verus! {

/// A piece of `color` may end a move on `pos`: the square is empty, or holds
/// a piece of the other colour, which is taken.
pub open spec fn may_land(pieces: Seq<Piece>, color: Color, pos: BoardPosition) -> bool {
    match occupant(pieces, pos) {
        None => true,
        Some(other) => other.kind.color() != color,
    }
}

/// The square `(dx, dy)` from `origin`, where it is on the board and a piece
/// of `color` may land there; else nothing.
pub open spec fn step(
    pieces: Seq<Piece>,
    color: Color,
    origin: BoardPosition,
    dx: int,
    dy: int,
) -> Seq<BoardPosition> {
    match origin.offset(dx, dy) {
        Some(pos) if may_land(pieces, color, pos) => seq![pos],
        _ => Seq::empty(),
    }
}

/// The squares that the steps `offsets` lead to from `origin`, in the order
/// of `offsets`.
pub open spec fn steps(
    pieces: Seq<Piece>,
    color: Color,
    origin: BoardPosition,
    offsets: Seq<(i8, i8)>,
) -> Seq<BoardPosition>
    decreases offsets.len(),
{
    if offsets.len() == 0 {
        Seq::empty()
    } else {
        steps(pieces, color, origin, offsets.drop_last()) + step(
            pieces,
            color,
            origin,
            offsets.last().0 as int,
            offsets.last().1 as int,
        )
    }
}

/// The eight jumps of a knight.
pub open spec fn knight_offsets() -> Seq<(i8, i8)> {
    seq![
        (2i8, 1i8),
        (2i8, -1i8),
        (1i8, 2i8),
        (1i8, -2i8),
        (-2i8, 1i8),
        (-2i8, -1i8),
        (-1i8, 2i8),
        (-1i8, -2i8),
    ]
}

/// The eight steps of a king.
pub open spec fn king_offsets() -> Seq<(i8, i8)> {
    seq![
        (1i8, 1i8),
        (-1i8, -1i8),
        (1i8, 0i8),
        (-1i8, 0i8),
        (0i8, 1i8),
        (0i8, -1i8),
        (-1i8, 1i8),
        (1i8, -1i8),
    ]
}

/// How many steps in direction `(dx, dy)` can at most follow `from` before
/// the edge of the board.
pub open spec fn room(from: BoardPosition, dx: int, dy: int) -> int {
    if dx > 0 {
        7 - from.x
    } else if dx < 0 {
        from.x as int
    } else if dy > 0 {
        7 - from.y
    } else {
        from.y as int
    }
}

/// The squares that a sliding piece of `color` reaches from `from` in
/// direction `(dx, dy)`, nearest first: every empty square up to the edge of
/// the board or the first piece in the way, and the square of that piece
/// where it is of the other colour.
#[verifier::opaque]
pub open spec fn ray(
    pieces: Seq<Piece>,
    color: Color,
    from: BoardPosition,
    dx: int,
    dy: int,
) -> Seq<BoardPosition>
    decreases room(from, dx, dy),
{
    if dx == 0 && dy == 0 {
        Seq::empty()
    } else {
        match from.offset(dx, dy) {
            None => Seq::empty(),
            Some(next) => match occupant(pieces, next) {
                None => seq![next] + ray(pieces, color, next, dx, dy),
                Some(other) => if other.kind.color() != color {
                    seq![next]
                } else {
                    Seq::empty()
                },
            },
        }
    }
}

/// The squares that a sliding piece of `color` reaches from `origin` along
/// the rays in `directions`, ray after ray in the order of `directions`.
pub open spec fn slides(
    pieces: Seq<Piece>,
    color: Color,
    origin: BoardPosition,
    directions: Seq<(i8, i8)>,
) -> Seq<BoardPosition>
    decreases directions.len(),
{
    if directions.len() == 0 {
        Seq::empty()
    } else {
        slides(pieces, color, origin, directions.drop_last()) + ray(
            pieces,
            color,
            origin,
            directions.last().0 as int,
            directions.last().1 as int,
        )
    }
}

/// The directions of a rook: along the rank towards file 0, then towards
/// file 7; along the file towards rank 0, then towards rank 7.
pub open spec fn rook_directions() -> Seq<(i8, i8)> {
    seq![(-1i8, 0i8), (1i8, 0i8), (0i8, -1i8), (0i8, 1i8)]
}

/// The directions of a bishop: the four diagonals.
pub open spec fn bishop_directions() -> Seq<(i8, i8)> {
    seq![(1i8, 1i8), (-1i8, 1i8), (1i8, -1i8), (-1i8, -1i8)]
}

/// The directions of a queen: those of a rook, then those of a bishop.
pub open spec fn queen_directions() -> Seq<(i8, i8)> {
    rook_directions() + bishop_directions()
}

/// The rank direction in which the pawns of `color` move.
pub open spec fn pawn_direction(color: Color) -> int {
    match color {
        Color::Black => 1,
        Color::White => -1,
    }
}

/// The square `dy` ranks from `origin`, where it is on the board and empty;
/// else nothing. A pawn takes nothing on its way forward.
pub open spec fn advance(pieces: Seq<Piece>, origin: BoardPosition, dy: int) -> Seq<
    BoardPosition,
> {
    match origin.offset(0, dy) {
        Some(pos) if occupant(pieces, pos) is None => seq![pos],
        _ => Seq::empty(),
    }
}

/// The moves of a pawn: one square forward, and from its starting rank two
/// squares forward as well. Each is offered where that square itself is
/// empty; the square in between is not looked at.
pub open spec fn pawn_moves(pieces: Seq<Piece>, color: Color, origin: BoardPosition) -> Seq<
    BoardPosition,
> {
    let forward = pawn_direction(color);
    if origin.y == pawn_rank(color) {
        advance(pieces, origin, forward) + advance(pieces, origin, 2 * forward)
    } else {
        advance(pieces, origin, forward)
    }
}

/// The squares that `piece` may move to among `pieces`, in the order in
/// which they are found. `piece` itself need not be among `pieces`.
pub open spec fn legal_moves(pieces: Seq<Piece>, piece: Piece) -> Seq<BoardPosition> {
    match piece.kind {
        PieceKind::Pawn(color) => pawn_moves(pieces, color, piece.pos),
        PieceKind::Rook(color) => slides(pieces, color, piece.pos, rook_directions()),
        PieceKind::Knight(color) => steps(pieces, color, piece.pos, knight_offsets()),
        PieceKind::Bishop(color) => slides(pieces, color, piece.pos, bishop_directions()),
        PieceKind::Queen(color) => slides(pieces, color, piece.pos, queen_directions()),
        PieceKind::King(color) => steps(pieces, color, piece.pos, king_offsets()),
    }
}

impl Board {
    /// Appends the squares that the steps `offsets` lead to from `origin`.
    fn push_steps(
        &self,
        moves: &mut Vec<BoardPosition>,
        color: Color,
        origin: BoardPosition,
        offsets: &[(i8, i8)],
    )
        ensures
            final(moves)@ == old(moves)@ + steps(self@, color, origin, offsets@),
    {
        let mut i: usize = 0;
        while i < offsets.len()
            invariant
                i <= offsets@.len(),
                moves@ == old(moves)@ + steps(self@, color, origin, offsets@.take(i as int)),
            decreases offsets@.len() - i,
        {
            let (dx, dy) = offsets[i];
            if let Some(pos) = origin.try_add(dx, dy) {
                match self.find(pos) {
                    Some(other) if other.kind.color() != color => moves.push(pos),
                    None => moves.push(pos),
                    Some(_) => (),
                }
            }
            proof {
                assert(offsets@.take(i + 1).drop_last() == offsets@.take(i as int));
            }
            i += 1;
        }
        proof {
            assert(offsets@.take(i as int) == offsets@);
        }
    }

    /// Appends the squares that a sliding piece of `color` reaches from
    /// `origin` in direction `(dx, dy)`.
    fn push_ray(
        &self,
        moves: &mut Vec<BoardPosition>,
        color: Color,
        origin: BoardPosition,
        dx: i8,
        dy: i8,
    )
        ensures
            final(moves)@ == old(moves)@ + ray(self@, color, origin, dx as int, dy as int),
    {
        if dx == 0 && dy == 0 {
            proof {
                reveal(ray);
            }
            return ;
        }
        let mut from = origin;
        loop
            invariant_except_break
                moves@ + ray(self@, color, from, dx as int, dy as int) == old(moves)@ + ray(
                    self@,
                    color,
                    origin,
                    dx as int,
                    dy as int,
                ),
            invariant
                dx != 0 || dy != 0,
            ensures
                moves@ == old(moves)@ + ray(self@, color, origin, dx as int, dy as int),
            decreases room(from, dx as int, dy as int),
        {
            proof {
                reveal(ray);
            }
            match from.try_add(dx, dy) {
                None => break ,
                Some(next) => match self.find(next) {
                    None => {
                        moves.push(next);
                        from = next;
                    },
                    Some(other) => {
                        if other.kind.color() != color {
                            moves.push(next);
                        }
                        break ;
                    },
                },
            }
        }
    }

    /// Appends the square `dy` ranks from `origin` where it is on the board
    /// and empty.
    fn push_advance(&self, moves: &mut Vec<BoardPosition>, origin: BoardPosition, dy: i8)
        ensures
            final(moves)@ == old(moves)@ + advance(self@, origin, dy as int),
    {
        if let Some(pos) = origin.try_add(0, dy) {
            if self.find(pos).is_none() {
                moves.push(pos);
            }
        }
    }

    /// Appends the squares that a sliding piece of `color` reaches from
    /// `origin` along the rays in `directions`.
    fn push_slides(
        &self,
        moves: &mut Vec<BoardPosition>,
        color: Color,
        origin: BoardPosition,
        directions: &[(i8, i8)],
    )
        ensures
            final(moves)@ == old(moves)@ + slides(self@, color, origin, directions@),
    {
        let mut i: usize = 0;
        while i < directions.len()
            invariant
                i <= directions@.len(),
                moves@ == old(moves)@ + slides(self@, color, origin, directions@.take(i as int)),
            decreases directions@.len() - i,
        {
            let (dx, dy) = directions[i];
            self.push_ray(moves, color, origin, dx, dy);
            proof {
                assert(directions@.take(i + 1).drop_last() == directions@.take(i as int));
            }
            i += 1;
        }
        proof {
            assert(directions@.take(i as int) == directions@);
        }
    }

    /// The squares that `piece` may move to on this board, by the way its
    /// kind moves. `piece` need not stand on the board.
    pub fn get_legal_moves(&self, piece: Piece) -> (moves: Vec<BoardPosition>)
        ensures
            moves@ == legal_moves(self@, piece),
    {
        let mut legal_moves: Vec<BoardPosition> = Vec::with_capacity(8);
        match piece.kind {
            PieceKind::Pawn(color) => {
                let (forward, home): (i8, i8) = match color {
                    Color::Black => (1, 1),
                    Color::White => (-1, 6),
                };
                self.push_advance(&mut legal_moves, piece.pos, forward);
                if piece.pos.y == home {
                    self.push_advance(&mut legal_moves, piece.pos, 2 * forward);
                }
            },
            PieceKind::Rook(color) => {
                let directions: [(i8, i8); 4] = [(-1, 0), (1, 0), (0, -1), (0, 1)];
                assert(directions@ =~= rook_directions());
                self.push_slides(&mut legal_moves, color, piece.pos, &directions);
            },
            PieceKind::Knight(color) => {
                let offsets: [(i8, i8); 8] = [
                    (2, 1),
                    (2, -1),
                    (1, 2),
                    (1, -2),
                    (-2, 1),
                    (-2, -1),
                    (-1, 2),
                    (-1, -2),
                ];
                assert(offsets@ =~= knight_offsets());
                self.push_steps(&mut legal_moves, color, piece.pos, &offsets);
            },
            PieceKind::Bishop(color) => {
                let directions: [(i8, i8); 4] = [(1, 1), (-1, 1), (1, -1), (-1, -1)];
                assert(directions@ =~= bishop_directions());
                self.push_slides(&mut legal_moves, color, piece.pos, &directions);
            },
            PieceKind::Queen(color) => {
                let directions: [(i8, i8); 8] = [
                    (-1, 0),
                    (1, 0),
                    (0, -1),
                    (0, 1),
                    (1, 1),
                    (-1, 1),
                    (1, -1),
                    (-1, -1),
                ];
                assert(directions@ =~= queen_directions());
                self.push_slides(&mut legal_moves, color, piece.pos, &directions);
            },
            PieceKind::King(color) => {
                let offsets: [(i8, i8); 8] = [
                    (1, 1),
                    (-1, -1),
                    (1, 0),
                    (-1, 0),
                    (0, 1),
                    (0, -1),
                    (-1, 1),
                    (1, -1),
                ];
                assert(offsets@ =~= king_offsets());
                self.push_steps(&mut legal_moves, color, piece.pos, &offsets);
            },
        }
        legal_moves
    }
}

} // verus!
