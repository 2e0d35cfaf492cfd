//! What a screen needs of the board: the size of a tile, the square under a
//! pixel, the pixel at which a square begins, and where the picture of each
//! piece lies on the sheet of sprites. Drawing itself is done elsewhere.

use crate::error::ChessError;
use crate::piece::{Color, PieceKind};
use crate::position::{on_board, BoardPosition};
use vstd::prelude::*;

verus! {

/// `a` divided by `b`, rounded towards zero.
pub open spec fn quotient(a: int, b: int) -> int {
    if a >= 0 && b > 0 {
        a / b
    } else if a < 0 && b < 0 {
        (-a) / (-b)
    } else if a < 0 {
        -((-a) / b)
    } else {
        -(a / (-b))
    }
}

/// The size in pixels of one square of the board.
#[derive(Debug, Clone, Copy, PartialEq, Eq, Structural)]
pub struct Tile {
    pub height: i32,
    pub width: i32,
}

impl Tile {
    /// The tile of a board that fills a window of `width` by `height`
    /// pixels: an eighth of the window each way.
    pub fn for_window_size(width: i32, height: i32) -> (tile: Tile)
        ensures
            tile.width == quotient(width as int, 8),
            tile.height == quotient(height as int, 8),
    {
        Tile { height: height / 8, width: width / 8 }
    }

    /// The pixel at which the square `pos` begins: its file times the
    /// tile's width, its rank times the tile's height.
    pub fn origin_of(self, pos: BoardPosition) -> (origin: (i32, i32))
        requires
            i32::MIN <= self.width * pos.x <= i32::MAX,
            i32::MIN <= self.height * pos.y <= i32::MAX,
        ensures
            origin.0 == self.width * pos.x,
            origin.1 == self.height * pos.y,
    {
        (self.width * (pos.x as i32), self.height * (pos.y as i32))
    }
}

/// Whether the square in row `row` and column `column` is a light one: the
/// squares alternate, and the first is light.
pub fn light_square(row: i32, column: i32) -> (light: bool)
    requires
        on_board(row as int),
        on_board(column as int),
    ensures
        light == ((row + column) % 2 == 0),
{
    (row + column) % 2 == 0
}

/// What an error carries of a quotient: the quotient itself where it fits a
/// coordinate's 8 bits, else the nearest value that does.
pub open spec fn carried(q: int) -> i8 {
    if q < i8::MIN {
        i8::MIN
    } else if q > i8::MAX {
        i8::MAX
    } else {
        q as i8
    }
}

/// `a` divided by `b`, rounded towards zero, as an error carries it.
fn carried_quotient(a: i32, b: i32) -> (c: i8)
    requires
        b != 0,
    ensures
        c == carried(quotient(a as int, b as int)),
{
    match a.checked_div(b) {
        Some(q) => {
            if q < -128 {
                i8::MIN
            } else if q > 127 {
                i8::MAX
            } else {
                q as i8
            }
        },
        None => i8::MAX,
    }
}

/// The square under the pixel `(x, y)` of a board whose squares have the
/// size `tile`: the pixel divided by the tile, each way, rounded towards
/// zero. Where a quotient is off the board, `OutOfBoard` with both
/// quotients, each as [`carried`] gives it.
pub fn determine_position(x: i32, y: i32, tile: Tile) -> (found: Result<BoardPosition, ChessError>)
    requires
        tile.width != 0,
        tile.height != 0,
    ensures
        ({
            let qx = quotient(x as int, tile.width as int);
            let qy = quotient(y as int, tile.height as int);
            &&& on_board(qx) && on_board(qy) ==> found == Ok::<BoardPosition, ChessError>(
                BoardPosition::at(qx, qy),
            )
            &&& !(on_board(qx) && on_board(qy)) ==> found == Err::<BoardPosition, ChessError>(
                (ChessError::OutOfBoard { x: carried(qx), y: carried(qy) }),
            )
        }),
{
    let column = carried_quotient(x, tile.width);
    let row = carried_quotient(y, tile.height);
    BoardPosition::try_from((column, row))
}

/// Where the picture of a piece lies on the sheet of sprites: the column,
/// then the row.
#[derive(Debug, Clone, Copy, PartialEq, Eq, Structural)]
pub struct TextureOffset(pub i32, pub i32);

impl TextureOffset {
    /// The column of each kind on the sheet, and the row of each colour.
    pub open spec fn of(kind: PieceKind) -> TextureOffset {
        let row: i32 = if kind.color() == Color::Black {
            1
        } else {
            0
        };
        match kind {
            PieceKind::King(_) => TextureOffset(0, row),
            PieceKind::Queen(_) => TextureOffset(1, row),
            PieceKind::Bishop(_) => TextureOffset(2, row),
            PieceKind::Knight(_) => TextureOffset(3, row),
            PieceKind::Rook(_) => TextureOffset(4, row),
            PieceKind::Pawn(_) => TextureOffset(5, row),
        }
    }

    /// The pixel at which the picture begins on a sheet whose pictures are
    /// `side` pixels wide and high.
    pub fn origin_on_sheet(self, side: i32) -> (origin: (i32, i32))
        requires
            i32::MIN <= side * self.0 <= i32::MAX,
            i32::MIN <= side * self.1 <= i32::MAX,
        ensures
            origin.0 == side * self.0,
            origin.1 == side * self.1,
    {
        (side * self.0, side * self.1)
    }
}

impl From<(i32, i32)> for TextureOffset {
    /// The offset with the column and the row of `value`.
    fn from(value: (i32, i32)) -> (offset: Self)
        ensures
            offset == TextureOffset(value.0, value.1),
    {
        Self(value.0, value.1)
    }
}

impl vstd::std_specs::convert::FromSpecImpl<(i32, i32)> for TextureOffset {
    open spec fn obeys_from_spec() -> bool {
        true
    }

    open spec fn from_spec(value: (i32, i32)) -> Self {
        TextureOffset(value.0, value.1)
    }
}

impl From<PieceKind> for TextureOffset {
    /// Where the picture of a piece of kind `kind` lies.
    fn from(kind: PieceKind) -> (offset: Self)
        ensures
            offset == TextureOffset::of(kind),
    {
        let vertical_offset: i32 = if kind.color() == Color::Black {
            1
        } else {
            0
        };
        match kind {
            PieceKind::King(_) => TextureOffset(0, vertical_offset),
            PieceKind::Queen(_) => TextureOffset(1, vertical_offset),
            PieceKind::Bishop(_) => TextureOffset(2, vertical_offset),
            PieceKind::Knight(_) => TextureOffset(3, vertical_offset),
            PieceKind::Rook(_) => TextureOffset(4, vertical_offset),
            PieceKind::Pawn(_) => TextureOffset(5, vertical_offset),
        }
    }
}

impl vstd::std_specs::convert::FromSpecImpl<PieceKind> for TextureOffset {
    open spec fn obeys_from_spec() -> bool {
        true
    }

    open spec fn from_spec(kind: PieceKind) -> Self {
        TextureOffset::of(kind)
    }
}

} // verus!
