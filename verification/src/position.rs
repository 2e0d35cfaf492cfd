//! Squares of the board: a file `x` and a rank `y`, each in `0..=7`.

use crate::error::ChessError;
use vstd::prelude::*;

verus! {

/// Whether `v` is the number of a file or rank of the board.
pub open spec fn on_board(v: int) -> bool {
    0 <= v <= 7
}

/// A square of the board. A square that was built by [`BoardPosition::new`],
/// by `try_from` or by one of the bounded steps is [`valid`](Self::valid).
#[derive(Debug, Clone, Copy, PartialEq, Eq, Hash, Structural)]
pub struct BoardPosition {
    /// The file, `0..=7`.
    pub x: i8,
    /// The rank, `0..=7`.
    pub y: i8,
}

impl BoardPosition {
    /// Both components lie on the board.
    pub open spec fn valid(self) -> bool {
        on_board(self.x as int) && on_board(self.y as int)
    }

    /// The square with file `x` and rank `y`, for components that fit.
    pub open spec fn at(x: int, y: int) -> BoardPosition {
        BoardPosition { x: x as i8, y: y as i8 }
    }

    /// The square `dx` files and `dy` ranks from this one, unless that
    /// leaves the board.
    pub open spec fn offset(self, dx: int, dy: int) -> Option<BoardPosition> {
        if on_board(self.x + dx) && on_board(self.y + dy) {
            Some(Self::at(self.x + dx, self.y + dy))
        } else {
            None
        }
    }

    /// What building a square from raw components gives: the square, or
    /// `OutOfBoard` with both raw values when either is off the board.
    pub open spec fn checked(x: i8, y: i8) -> Result<BoardPosition, ChessError> {
        if on_board(x as int) && on_board(y as int) {
            Ok(BoardPosition { x, y })
        } else {
            Err(ChessError::OutOfBoard { x, y })
        }
    }

    /// The square with file `x` and rank `y`.
    pub fn new(x: i8, y: i8) -> (pos: Self)
        requires
            on_board(x as int),
            on_board(y as int),
        ensures
            pos == (BoardPosition { x, y }),
            pos.valid(),
    {
        Self { x, y }
    }

    /// Whether `coordinate` is the number of a file or rank.
    pub fn in_board(coordinate: i8) -> (inside: bool)
        ensures
            inside == on_board(coordinate as int),
    {
        0 <= coordinate && coordinate <= 7
    }

    /// Steps `x` files up; `None` when the new file is off the board.
    pub fn try_add_x(self, x: i8) -> (moved: Option<Self>)
        ensures
            moved == if on_board(self.x + x) {
                Some(Self::at(self.x + x, self.y as int))
            } else {
                None
            },
    {
        match self.x.checked_add(x) {
            Some(file) if Self::in_board(file) => Some(Self { x: file, y: self.y }),
            _ => None,
        }
    }

    /// Steps `x` files down; `None` when the new file is off the board.
    pub fn try_sub_x(self, x: i8) -> (moved: Option<Self>)
        ensures
            moved == if on_board(self.x - x) {
                Some(Self::at(self.x - x, self.y as int))
            } else {
                None
            },
    {
        match self.x.checked_sub(x) {
            Some(file) if Self::in_board(file) => Some(Self { x: file, y: self.y }),
            _ => None,
        }
    }

    /// Steps `y` ranks up; `None` when the new rank is off the board.
    pub fn try_add_y(self, y: i8) -> (moved: Option<Self>)
        ensures
            moved == if on_board(self.y + y) {
                Some(Self::at(self.x as int, self.y + y))
            } else {
                None
            },
    {
        match self.y.checked_add(y) {
            Some(rank) if Self::in_board(rank) => Some(Self { x: self.x, y: rank }),
            _ => None,
        }
    }

    /// Steps `y` ranks down; `None` when the new rank is off the board.
    pub fn try_sub_y(self, y: i8) -> (moved: Option<Self>)
        ensures
            moved == if on_board(self.y - y) {
                Some(Self::at(self.x as int, self.y - y))
            } else {
                None
            },
    {
        match self.y.checked_sub(y) {
            Some(rank) if Self::in_board(rank) => Some(Self { x: self.x, y: rank }),
            _ => None,
        }
    }

    /// Steps `x` files and `y` ranks at once; `None` when either leaves the
    /// board.
    pub fn try_add(self, x: i8, y: i8) -> (moved: Option<Self>)
        ensures
            moved == self.offset(x as int, y as int),
            moved matches Some(pos) ==> pos.valid(),
    {
        match (self.x.checked_add(x), self.y.checked_add(y)) {
            (Some(file), Some(rank)) if Self::in_board(file) && Self::in_board(rank) => Some(
                Self { x: file, y: rank },
            ),
            _ => None,
        }
    }
}

impl TryFrom<(i8, i8)> for BoardPosition {
    type Error = ChessError;

    /// The square `(x, y)`, or `OutOfBoard` with both raw values when either
    /// is off the board.
    fn try_from(value: (i8, i8)) -> (built: Result<Self, ChessError>)
        ensures
            built == Self::checked(value.0, value.1),
    {
        if Self::in_board(value.0) && Self::in_board(value.1) {
            Ok(Self { x: value.0, y: value.1 })
        } else {
            Err(ChessError::OutOfBoard { x: value.0, y: value.1 })
        }
    }
}

impl vstd::std_specs::convert::TryFromSpecImpl<(i8, i8)> for BoardPosition {
    open spec fn obeys_try_from_spec() -> bool {
        true
    }

    open spec fn try_from_spec(value: (i8, i8)) -> Result<Self, ChessError> {
        Self::checked(value.0, value.1)
    }
}

} // verus!
