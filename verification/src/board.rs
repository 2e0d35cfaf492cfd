//! The board: the pieces of a position, looked up and removed by square.

use crate::error::ChessError;
use crate::piece::{back_rank, back_row, pawn_rank, pawn_row, standard_setup, Color, Piece, Pieces};
use crate::position::BoardPosition;
use vstd::prelude::*;

verus! {

/// `i` is the place of the first piece of `pieces` that stands on `pos`.
pub open spec fn is_first_on(pieces: Seq<Piece>, pos: BoardPosition, i: int) -> bool {
    &&& 0 <= i < pieces.len()
    &&& pieces[i].pos == pos
    &&& forall|j: int| 0 <= j < i ==> pieces[j].pos != pos
}

/// Some piece of `pieces` stands on `pos`.
pub open spec fn occupied(pieces: Seq<Piece>, pos: BoardPosition) -> bool {
    exists|i: int| is_first_on(pieces, pos, i)
}

/// The place of the first piece of `pieces` that stands on `pos`, where
/// `pos` is occupied.
pub open spec fn first_index_on(pieces: Seq<Piece>, pos: BoardPosition) -> int {
    choose|i: int| is_first_on(pieces, pos, i)
}

/// The piece that stands on `pos`: the first one, should several share the
/// square.
pub open spec fn occupant(pieces: Seq<Piece>, pos: BoardPosition) -> Option<Piece> {
    if occupied(pieces, pos) {
        Some(pieces[first_index_on(pieces, pos)])
    } else {
        None
    }
}

/// `pieces` without the occupant of `pos`; `pieces` itself where `pos` is
/// empty.
pub open spec fn without_occupant(pieces: Seq<Piece>, pos: BoardPosition) -> Seq<Piece> {
    if occupied(pieces, pos) {
        pieces.remove(first_index_on(pieces, pos))
    } else {
        pieces
    }
}

/// No two pieces of `pieces` share a square.
pub open spec fn squares_distinct(pieces: Seq<Piece>) -> bool {
    forall|i: int, j: int|
        0 <= i < j < pieces.len() ==> (#[trigger] pieces[i]).pos != (#[trigger] pieces[j]).pos
}

/// A piece on `pos` at place `i` means that `pos` is occupied, and that its
/// first piece comes no later than `i`.
pub proof fn lemma_piece_on_square(pieces: Seq<Piece>, pos: BoardPosition, i: int)
    requires
        0 <= i < pieces.len(),
        pieces[i].pos == pos,
    ensures
        occupied(pieces, pos),
        is_first_on(pieces, pos, first_index_on(pieces, pos)),
        first_index_on(pieces, pos) <= i,
    decreases i,
{
    if exists|j: int| 0 <= j < i && pieces[j].pos == pos {
        let j = choose|j: int| 0 <= j < i && pieces[j].pos == pos;
        lemma_piece_on_square(pieces, pos, j);
    } else {
        assert(is_first_on(pieces, pos, i));
    }
}

/// A square is occupied exactly when some piece stands on it.
pub proof fn lemma_occupied_iff_some_piece(pieces: Seq<Piece>, pos: BoardPosition)
    ensures
        occupied(pieces, pos) <==> exists|i: int|
            0 <= i < pieces.len() && (#[trigger] pieces[i]).pos == pos,
{
    if occupied(pieces, pos) {
        let k = first_index_on(pieces, pos);
        assert(pieces[k].pos == pos);
    }
    if exists|i: int| 0 <= i < pieces.len() && (#[trigger] pieces[i]).pos == pos {
        let i = choose|i: int| 0 <= i < pieces.len() && (#[trigger] pieces[i]).pos == pos;
        lemma_piece_on_square(pieces, pos, i);
    }
}

/// The occupant of a square is a piece of the position that stands on that
/// square, and the only one that `occupant` can be: the first such piece.
pub proof fn lemma_occupant_is_first(pieces: Seq<Piece>, pos: BoardPosition, i: int)
    requires
        is_first_on(pieces, pos, i),
    ensures
        first_index_on(pieces, pos) == i,
        occupant(pieces, pos) == Some(pieces[i]),
{
    let k = first_index_on(pieces, pos);
    assert(is_first_on(pieces, pos, k));
    if k < i {
        assert(pieces[k].pos != pos);
    }
    if i < k {
        assert(pieces[i].pos != pos);
    }
}

/// Once the occupant of `pos` is removed, `pos` is empty, provided that `pos`
/// held one piece at most.
pub proof fn lemma_removed_square_is_empty(pieces: Seq<Piece>, pos: BoardPosition)
    requires
        forall|i: int, j: int|
            0 <= i < j < pieces.len() ==> !((#[trigger] pieces[i]).pos == pos
                && (#[trigger] pieces[j]).pos == pos),
    ensures
        occupant(without_occupant(pieces, pos), pos) is None,
{
    let rest = without_occupant(pieces, pos);
    if occupied(rest, pos) {
        let m = first_index_on(rest, pos);
        assert(rest[m].pos == pos);
        let k = first_index_on(pieces, pos);
        assert(is_first_on(pieces, pos, k));
        if m < k {
            assert(pieces[m].pos != pos);
        } else {
            assert(rest[m] == pieces[m + 1]);
            assert(!(pieces[k].pos == pos && pieces[m + 1].pos == pos));
        }
    }
}

/// Removing the occupant of `pos` changes the occupant of no other square.
pub proof fn lemma_removal_keeps_other_squares(
    pieces: Seq<Piece>,
    pos: BoardPosition,
    other: BoardPosition,
)
    requires
        other != pos,
    ensures
        occupant(without_occupant(pieces, pos), other) == occupant(pieces, other),
{
    if occupied(pieces, pos) {
        let k = first_index_on(pieces, pos);
        assert(is_first_on(pieces, pos, k));
        let rest = pieces.remove(k);
        if occupied(pieces, other) {
            let a = first_index_on(pieces, other);
            assert(is_first_on(pieces, other, a));
            let b = if a < k {
                a
            } else {
                a - 1
            };
            assert(rest[b] == pieces[a]);
            assert forall|j: int| 0 <= j < b implies rest[j].pos != other by {
                if j < k {
                    assert(rest[j] == pieces[j]);
                } else {
                    assert(rest[j] == pieces[j + 1]);
                }
            }
            assert(is_first_on(rest, other, b));
            lemma_occupant_is_first(rest, other, b);
        } else if occupied(rest, other) {
            let m = first_index_on(rest, other);
            assert(is_first_on(rest, other, m));
            if m < k {
                assert(rest[m] == pieces[m]);
                lemma_piece_on_square(pieces, other, m);
            } else {
                assert(rest[m] == pieces[m + 1]);
                lemma_piece_on_square(pieces, other, m + 1);
            }
        }
    }
}

/// Removing a piece leaves the squares of the others distinct.
pub proof fn lemma_removal_keeps_squares_distinct(pieces: Seq<Piece>, pos: BoardPosition)
    requires
        squares_distinct(pieces),
    ensures
        squares_distinct(without_occupant(pieces, pos)),
{
    if occupied(pieces, pos) {
        let k = first_index_on(pieces, pos);
        assert(is_first_on(pieces, pos, k));
        let rest = pieces.remove(k);
        assert forall|i: int, j: int| 0 <= i < j < rest.len() implies (#[trigger] rest[i]).pos != (
        #[trigger] rest[j]).pos by {
            let a = if i < k {
                i
            } else {
                i + 1
            };
            let b = if j < k {
                j
            } else {
                j + 1
            };
            assert(rest[i] == pieces[a]);
            assert(rest[j] == pieces[b]);
        }
    }
}

/// The starting position: 32 pieces on the board, Black's sixteen before
/// White's, each pawn on its side's pawn rank and each other piece on its
/// side's back rank, no two on one square.
pub proof fn lemma_standard_setup()
    ensures
        standard_setup().len() == 32,
        forall|i: int| 0 <= i < 16 ==> (#[trigger] standard_setup()[i]).kind.color() == Color::Black,
        forall|i: int|
            16 <= i < 32 ==> (#[trigger] standard_setup()[i]).kind.color() == Color::White,
        forall|i: int|
            0 <= i < 32 ==> {
                let piece = #[trigger] standard_setup()[i];
                &&& piece.pos.valid()
                &&& piece.kind is Pawn ==> piece.pos.y == pawn_rank(piece.kind.color())
                &&& !(piece.kind is Pawn) ==> piece.pos.y == back_rank(piece.kind.color())
            },
        squares_distinct(standard_setup()),
{
    let setup = standard_setup();
    assert forall|i: int| 0 <= i < 32 implies {
        let piece = #[trigger] setup[i];
        &&& piece.kind.color() == if i < 16 {
            Color::Black
        } else {
            Color::White
        }
        &&& piece.kind is Pawn <==> i % 16 < 8
        &&& piece.pos.valid()
        &&& piece.pos.y == if i < 8 {
            1int
        } else if i < 16 {
            0int
        } else if i < 24 {
            6int
        } else {
            7int
        }
        &&& i % 16 < 8 ==> piece.pos.x == i % 16
        &&& i % 16 >= 8 ==> piece.pos.x == back_row(Color::Black)[i % 16 - 8].pos.x
    } by {
        if i < 8 {
            assert(setup[i] == pawn_row(Color::Black)[i]);
        } else if i < 16 {
            assert(setup[i] == back_row(Color::Black)[i - 8]);
        } else if i < 24 {
            assert(setup[i] == pawn_row(Color::White)[i - 16]);
        } else {
            assert(setup[i] == back_row(Color::White)[i - 24]);
        }
    }
    assert forall|i: int, j: int| 0 <= i < j < setup.len() implies (#[trigger] setup[i]).pos != (
    #[trigger] setup[j]).pos by {
        if setup[i].pos.y == setup[j].pos.y {
            assert(j - i < 8);
        }
    }
}

/// A position. Its view is the sequence of its pieces, in the order in which
/// they were added.
#[derive(Debug)]
pub struct Board {
    pieces: Pieces,
}

impl View for Board {
    type V = Seq<Piece>;

    closed spec fn view(&self) -> Seq<Piece> {
        self.pieces@
    }
}

impl Board {
    /// The board on which `pieces` stand.
    pub fn new(pieces: Pieces) -> (board: Self)
        ensures
            board@ == pieces@,
    {
        Board { pieces }
    }

    /// The pieces on the board, in the order in which they were added.
    pub fn pieces(&self) -> (pieces: &Pieces)
        ensures
            pieces@ == self@,
    {
        &self.pieces
    }

    /// The place of the first piece on `pos`, if there is one.
    fn index_of(&self, pos: BoardPosition) -> (found: Option<usize>)
        ensures
            match found {
                Some(i) => is_first_on(self@, pos, i as int),
                None => !occupied(self@, pos),
            },
    {
        let mut i: usize = 0;
        while i < self.pieces.len()
            invariant
                i <= self@.len(),
                forall|j: int| 0 <= j < i ==> self@[j].pos != pos,
            decreases self@.len() - i,
        {
            if self.pieces[i].pos == pos {
                return Some(i);
            }
            i += 1;
        }
        None
    }

    /// The piece that stands on `pos`, if there is one.
    pub fn find(&self, pos: BoardPosition) -> (found: Option<Piece>)
        ensures
            found == occupant(self@, pos),
    {
        match self.index_of(pos) {
            Some(i) => Some(self.pieces[i]),
            None => None,
        }
    }

    /// The piece that stands on `pos`, if it is of the same colour as
    /// `piece`; `None` for an empty square and for a piece of the other
    /// colour.
    pub fn opponent_on(&self, pos: BoardPosition, piece: Piece) -> (found: Option<Piece>)
        ensures
            found == match occupant(self@, pos) {
                Some(other) if other.kind.color() == piece.kind.color() => Some(other),
                _ => None,
            },
    {
        match self.find(pos) {
            Some(other) if other.kind.color() == piece.kind.color() => Some(other),
            _ => None,
        }
    }

    /// Takes the piece that stands on `pos` off the board; `NoSuchPiece`,
    /// and the board as it was, where the square is empty.
    pub fn remove_peice_on(&mut self, pos: BoardPosition) -> (removed: Result<(), ChessError>)
        ensures
            final(self)@ == without_occupant(old(self)@, pos),
            removed == if occupied(old(self)@, pos) {
                Ok::<(), ChessError>(())
            } else {
                Err::<(), ChessError>(ChessError::NoSuchPiece)
            },
    {
        match self.index_of(pos) {
            Some(index) => {
                self.pieces.remove(index);
                Ok(())
            },
            None => Err(ChessError::NoSuchPiece),
        }
    }
}

impl Default for Board {
    /// The board at the start of a game.
    fn default() -> (board: Self)
        ensures
            board@ == standard_setup(),
    {
        Board { pieces: Pieces::default() }
    }
}

} // verus!
