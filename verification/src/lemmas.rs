//! What holds of the squares that the pieces reach: which squares a list of
//! steps leads to, where a ray begins, runs and ends, and that every move
//! lands on the board, off the piece's own square, and comes once.

use crate::board::occupant;
use crate::moves::{
    advance, bishop_directions, king_offsets, knight_offsets, legal_moves, may_land, pawn_direction,
    queen_directions, ray, rook_directions, room, slides, step, steps,
};
use crate::piece::{Color, Piece, PieceKind};
use crate::position::BoardPosition;
use vstd::prelude::*;

verus! {

/// `offset` leads from `origin` to `pos`.
pub open spec fn leads_to(origin: BoardPosition, offset: (i8, i8), pos: BoardPosition) -> bool {
    origin.offset(offset.0 as int, offset.1 as int) == Some(pos)
}

/// A list of steps leads to `pos` exactly when one of its offsets leads
/// there from `origin` and a piece of `color` may land on `pos`.
pub proof fn lemma_steps_contains(
    pieces: Seq<Piece>,
    color: Color,
    origin: BoardPosition,
    offsets: Seq<(i8, i8)>,
    pos: BoardPosition,
)
    ensures
        steps(pieces, color, origin, offsets).contains(pos) <==> may_land(pieces, color, pos)
            && exists|k: int| 0 <= k < offsets.len() && leads_to(origin, #[trigger] offsets[k], pos),
    decreases offsets.len(),
{
    if offsets.len() > 0 {
        let front = offsets.drop_last();
        let last = offsets.last();
        let before = steps(pieces, color, origin, front);
        let added = step(pieces, color, origin, last.0 as int, last.1 as int);
        lemma_steps_contains(pieces, color, origin, front, pos);
        if (before + added).contains(pos) {
            let i = choose|i: int| 0 <= i < (before + added).len() && (before + added)[i] == pos;
            if i < before.len() {
                assert(before[i] == pos);
                let k = choose|k: int|
                    0 <= k < front.len() && leads_to(origin, #[trigger] front[k], pos);
                assert(leads_to(origin, offsets[k], pos));
            } else {
                assert(added[i - before.len()] == pos);
                assert(leads_to(origin, offsets[offsets.len() - 1], pos));
            }
        }
        if may_land(pieces, color, pos) && exists|k: int|
            0 <= k < offsets.len() && leads_to(origin, #[trigger] offsets[k], pos) {
            let k = choose|k: int|
                0 <= k < offsets.len() && leads_to(origin, #[trigger] offsets[k], pos);
            if k < front.len() {
                assert(leads_to(origin, front[k], pos));
                let i = choose|i: int| 0 <= i < before.len() && before[i] == pos;
                assert((before + added)[i] == pos);
            } else {
                assert(added == seq![pos]);
                assert((before + added)[before.len() as int] == pos);
            }
        }
    }
}

/// Steps by offsets that differ lead to squares that differ: no square comes
/// twice.
pub proof fn lemma_steps_no_duplicates(
    pieces: Seq<Piece>,
    color: Color,
    origin: BoardPosition,
    offsets: Seq<(i8, i8)>,
)
    requires
        offsets.no_duplicates(),
    ensures
        steps(pieces, color, origin, offsets).no_duplicates(),
    decreases offsets.len(),
{
    if offsets.len() > 0 {
        let front = offsets.drop_last();
        let last = offsets.last();
        let before = steps(pieces, color, origin, front);
        let added = step(pieces, color, origin, last.0 as int, last.1 as int);
        lemma_steps_no_duplicates(pieces, color, origin, front);
        if added.len() > 0 {
            let pos = added[0];
            lemma_steps_contains(pieces, color, origin, front, pos);
            if before.contains(pos) {
                let k = choose|k: int|
                    0 <= k < front.len() && leads_to(origin, #[trigger] front[k], pos);
                assert(offsets[k] == front[k]);
                assert(offsets[k] != offsets[offsets.len() - 1]);
                assert(front[k] == last);
            }
            assert forall|i: int, j: int|
                0 <= i < (before + added).len() && 0 <= j < (before + added).len() && i
                    != j implies (before + added)[i] != (before + added)[j] by {
                if i < before.len() && j < before.len() {
                } else if i < before.len() {
                    assert(before.contains(before[i]));
                } else if j < before.len() {
                    assert(before.contains(before[j]));
                }
            }
        } else {
            assert(before + added == before);
        }
    }
}

/// From `from` to `to` is the jump of a knight: two squares one way and one
/// square the other.
pub open spec fn knight_jump(from: BoardPosition, to: BoardPosition) -> bool {
    let dx = to.x - from.x;
    let dy = to.y - from.y;
    ||| (dx == 1 || dx == -1) && (dy == 2 || dy == -2)
    ||| (dx == 2 || dx == -2) && (dy == 1 || dy == -1)
}

/// From `from` to `to` is the step of a king: to a square next to its own.
pub open spec fn king_step(from: BoardPosition, to: BoardPosition) -> bool {
    let dx = to.x - from.x;
    let dy = to.y - from.y;
    -1 <= dx <= 1 && -1 <= dy <= 1 && (dx != 0 || dy != 0)
}

/// A knight may move to exactly the squares of the board that are a
/// knight's jump away and on which it may land.
pub proof fn lemma_knight_moves(
    pieces: Seq<Piece>,
    color: Color,
    origin: BoardPosition,
    pos: BoardPosition,
)
    ensures
        steps(pieces, color, origin, knight_offsets()).contains(pos) <==> pos.valid()
            && knight_jump(origin, pos) && may_land(pieces, color, pos),
{
    let jumps = knight_offsets();
    lemma_steps_contains(pieces, color, origin, jumps, pos);
    if pos.valid() && knight_jump(origin, pos) {
        let dx = pos.x - origin.x;
        let dy = pos.y - origin.y;
        let k: int = if dx == 2 && dy == 1 {
            0
        } else if dx == 2 {
            1
        } else if dx == 1 && dy == 2 {
            2
        } else if dx == 1 {
            3
        } else if dx == -2 && dy == 1 {
            4
        } else if dx == -2 {
            5
        } else if dy == 2 {
            6
        } else {
            7
        };
        assert(leads_to(origin, jumps[k], pos));
    }
}

/// A king may move to exactly the squares of the board that are next to its
/// own and on which it may land.
pub proof fn lemma_king_moves(
    pieces: Seq<Piece>,
    color: Color,
    origin: BoardPosition,
    pos: BoardPosition,
)
    ensures
        steps(pieces, color, origin, king_offsets()).contains(pos) <==> pos.valid() && king_step(
            origin,
            pos,
        ) && may_land(pieces, color, pos),
{
    let around = king_offsets();
    lemma_steps_contains(pieces, color, origin, around, pos);
    if pos.valid() && king_step(origin, pos) {
        let dx = pos.x - origin.x;
        let dy = pos.y - origin.y;
        let k: int = if dx == 1 && dy == 1 {
            0
        } else if dx == -1 && dy == -1 {
            1
        } else if dx == 1 && dy == 0 {
            2
        } else if dx == -1 && dy == 0 {
            3
        } else if dx == 0 && dy == 1 {
            4
        } else if dx == 0 {
            5
        } else if dx == -1 {
            6
        } else {
            7
        };
        assert(leads_to(origin, around[k], pos));
    }
}

/// The square `k` steps of `(dx, dy)` from `from`, unless it is off the
/// board.
pub open spec fn along(from: BoardPosition, dx: int, dy: int, k: int) -> Option<BoardPosition> {
    from.offset(k * dx, k * dy)
}

/// A sliding piece of `color` reaches the `n`-th square from `from` in
/// direction `(dx, dy)`: every square before it on the way is on the board
/// and empty, and the piece may land on the `n`-th itself.
pub open spec fn reaches(
    pieces: Seq<Piece>,
    color: Color,
    from: BoardPosition,
    dx: int,
    dy: int,
    n: int,
) -> bool {
    &&& 1 <= n
    &&& forall|k: int|
        1 <= k < n ==> match #[trigger] along(from, dx, dy, k) {
            Some(pos) => occupant(pieces, pos) is None,
            None => false,
        }
    &&& match along(from, dx, dy, n) {
        Some(pos) => may_land(pieces, color, pos),
        None => false,
    }
}

/// One step on, the `k + 1`-th square of a line is the `k`-th.
proof fn lemma_along_next(from: BoardPosition, dx: int, dy: int, k: int)
    requires
        from.offset(dx, dy) is Some,
    ensures
        along(from, dx, dy, 1) == from.offset(dx, dy),
        along(from, dx, dy, k + 1) == along(from.offset(dx, dy).unwrap(), dx, dy, k),
{
    assert((k + 1) * dx == k * dx + dx) by (nonlinear_arith);
    assert((k + 1) * dy == k * dy + dy) by (nonlinear_arith);
}

/// A ray is the line of squares from its origin in its direction, as far as
/// the piece reaches: its `i`-th square is the `i + 1`-th of the line, and
/// the `n`-th square of the line is on the ray exactly when the piece
/// reaches it.
pub proof fn lemma_ray_is_reach(
    pieces: Seq<Piece>,
    color: Color,
    from: BoardPosition,
    dx: int,
    dy: int,
)
    requires
        dx != 0 || dy != 0,
    ensures
        forall|i: int|
            0 <= i < ray(pieces, color, from, dx, dy).len() ==> Some(
                #[trigger] ray(pieces, color, from, dx, dy)[i],
            ) == along(from, dx, dy, i + 1),
        forall|n: int|
            1 <= n <= ray(pieces, color, from, dx, dy).len() <==> #[trigger] reaches(
                pieces,
                color,
                from,
                dx,
                dy,
                n,
            ),
    decreases room(from, dx, dy),
{
    reveal(ray);
    let squares = ray(pieces, color, from, dx, dy);
    match from.offset(dx, dy) {
        None => {
            assert forall|n: int| #[trigger] reaches(pieces, color, from, dx, dy, n) implies false by {
                if n > 1 {
                    assert(along(from, dx, dy, 1) is None);
                }
            }
        },
        Some(next) => {
            match occupant(pieces, next) {
                Some(other) => {
                    assert forall|n: int|
                        1 <= n <= squares.len() <==> #[trigger] reaches(
                            pieces,
                            color,
                            from,
                            dx,
                            dy,
                            n,
                        ) by {
                        if n > 1 && reaches(pieces, color, from, dx, dy, n) {
                            assert(along(from, dx, dy, 1) == Some(next));
                        }
                    }
                },
                None => {
                    let rest = ray(pieces, color, next, dx, dy);
                    lemma_ray_is_reach(pieces, color, next, dx, dy);
                    assert forall|i: int| 0 <= i < squares.len() implies Some(
                        #[trigger] squares[i],
                    ) == along(from, dx, dy, i + 1) by {
                        if i > 0 {
                            assert(squares[i] == rest[i - 1]);
                            lemma_along_next(from, dx, dy, i);
                        }
                    }
                    assert forall|n: int|
                        1 <= n <= squares.len() <==> #[trigger] reaches(
                            pieces,
                            color,
                            from,
                            dx,
                            dy,
                            n,
                        ) by {
                        if n > 1 {
                            lemma_reaches_next(pieces, color, from, dx, dy, n - 1);
                            assert(reaches(pieces, color, next, dx, dy, n - 1) <==> 1 <= n - 1
                                <= rest.len());
                        }
                    }
                },
            }
        },
    }
}

/// Past an empty first square, a piece reaches the `n + 1`-th square of a
/// line exactly when, from the first square, it reaches the `n`-th.
proof fn lemma_reaches_next(
    pieces: Seq<Piece>,
    color: Color,
    from: BoardPosition,
    dx: int,
    dy: int,
    n: int,
)
    requires
        1 <= n,
        from.offset(dx, dy) is Some,
        occupant(pieces, from.offset(dx, dy).unwrap()) is None,
    ensures
        reaches(pieces, color, from, dx, dy, n + 1) <==> reaches(
            pieces,
            color,
            from.offset(dx, dy).unwrap(),
            dx,
            dy,
            n,
        ),
{
    let next = from.offset(dx, dy).unwrap();
    lemma_along_next(from, dx, dy, n);
    if reaches(pieces, color, from, dx, dy, n + 1) {
        assert forall|k: int| 1 <= k < n implies match #[trigger] along(next, dx, dy, k) {
            Some(pos) => occupant(pieces, pos) is None,
            None => false,
        } by {
            lemma_along_next(from, dx, dy, k);
            assert(along(from, dx, dy, k + 1) == along(next, dx, dy, k));
        }
    }
    if reaches(pieces, color, next, dx, dy, n) {
        assert forall|k: int| 1 <= k < n + 1 implies match #[trigger] along(from, dx, dy, k) {
            Some(pos) => occupant(pieces, pos) is None,
            None => false,
        } by {
            lemma_along_next(from, dx, dy, k - 1);
            if k > 1 {
                assert(along(next, dx, dy, k - 1) == along(from, dx, dy, k));
            }
        }
    }
}

/// The `b`-th square of the line from `from` in direction `(dx, dy)` is the
/// first that is off the board or occupied.
pub open spec fn first_blocked(
    pieces: Seq<Piece>,
    from: BoardPosition,
    dx: int,
    dy: int,
    b: int,
) -> bool {
    &&& 1 <= b
    &&& forall|k: int|
        1 <= k < b ==> match #[trigger] along(from, dx, dy, k) {
            Some(pos) => occupant(pieces, pos) is None,
            None => false,
        }
    &&& match along(from, dx, dy, b) {
        Some(pos) => occupant(pieces, pos) is Some,
        None => true,
    }
}

/// A piece of the other colour than `color` stands on the `b`-th square of
/// the line.
pub open spec fn enemy_on(
    pieces: Seq<Piece>,
    color: Color,
    from: BoardPosition,
    dx: int,
    dy: int,
    b: int,
) -> bool {
    match along(from, dx, dy, b) {
        Some(pos) => match occupant(pieces, pos) {
            Some(other) => other.kind.color() != color,
            None => false,
        },
        None => false,
    }
}

/// Where a ray ends. Let the `b`-th square of its line be the first that is
/// off the board or occupied. The ray holds the `b - 1` squares before it,
/// and the `b`-th too where a piece of the other colour stands there: never
/// the square of a piece of the mover's own colour, and never a square
/// beyond a piece of either colour.
pub proof fn lemma_ray_ends_at_blocker(
    pieces: Seq<Piece>,
    color: Color,
    from: BoardPosition,
    dx: int,
    dy: int,
    b: int,
)
    requires
        dx != 0 || dy != 0,
        first_blocked(pieces, from, dx, dy, b),
    ensures
        ray(pieces, color, from, dx, dy).len() == if enemy_on(pieces, color, from, dx, dy, b) {
            b
        } else {
            b - 1
        },
{
    lemma_ray_is_reach(pieces, color, from, dx, dy);
    if b > 1 {
        assert(reaches(pieces, color, from, dx, dy, b - 1));
    }
    assert(reaches(pieces, color, from, dx, dy, b) <==> enemy_on(pieces, color, from, dx, dy, b));
    assert(!reaches(pieces, color, from, dx, dy, b + 1)) by {
        if reaches(pieces, color, from, dx, dy, b + 1) {
            assert(along(from, dx, dy, b) is Some);
        }
    }
}

/// Every square of a ray is on the board, is not the origin, and is one on
/// which the piece may land; no square comes twice.
pub proof fn lemma_ray_squares(
    pieces: Seq<Piece>,
    color: Color,
    from: BoardPosition,
    dx: int,
    dy: int,
)
    ensures
        forall|i: int|
            0 <= i < ray(pieces, color, from, dx, dy).len() ==> {
                let pos = #[trigger] ray(pieces, color, from, dx, dy)[i];
                pos.valid() && pos != from && may_land(pieces, color, pos)
            },
        ray(pieces, color, from, dx, dy).no_duplicates(),
{
    let squares = ray(pieces, color, from, dx, dy);
    if dx == 0 && dy == 0 {
        reveal(ray);
    } else {
        lemma_ray_is_reach(pieces, color, from, dx, dy);
        assert forall|i: int| 0 <= i < squares.len() implies {
            let pos = #[trigger] squares[i];
            pos.valid() && pos != from && may_land(pieces, color, pos)
        } by {
            assert(reaches(pieces, color, from, dx, dy, i + 1));
            assert(Some(squares[i]) == along(from, dx, dy, i + 1));
            if squares[i] == from {
                assert((i + 1) * dx == 0 && (i + 1) * dy == 0);
                assert(dx == 0 && dy == 0) by (nonlinear_arith)
                    requires
                        i + 1 > 0,
                        (i + 1) * dx == 0,
                        (i + 1) * dy == 0,
                ;
            }
        }
        assert forall|i: int, j: int|
            0 <= i < squares.len() && 0 <= j < squares.len() && i != j implies squares[i]
            != squares[j] by {
            assert(Some(squares[i]) == along(from, dx, dy, i + 1));
            assert(Some(squares[j]) == along(from, dx, dy, j + 1));
            if squares[i] == squares[j] {
                assert((i + 1) * dx == (j + 1) * dx && (i + 1) * dy == (j + 1) * dy);
                assert(dx == 0 && dy == 0) by (nonlinear_arith)
                    requires
                        i != j,
                        (i + 1) * dx == (j + 1) * dx,
                        (i + 1) * dy == (j + 1) * dy,
                ;
            }
        }
    }
}

/// `pos` is on the ray from `origin` in `direction`.
pub open spec fn on_ray(
    pieces: Seq<Piece>,
    color: Color,
    origin: BoardPosition,
    direction: (i8, i8),
    pos: BoardPosition,
) -> bool {
    ray(pieces, color, origin, direction.0 as int, direction.1 as int).contains(pos)
}

/// A sliding piece reaches `pos` exactly when `pos` is on the ray of one of
/// its directions.
pub proof fn lemma_slides_contains(
    pieces: Seq<Piece>,
    color: Color,
    origin: BoardPosition,
    directions: Seq<(i8, i8)>,
    pos: BoardPosition,
)
    ensures
        slides(pieces, color, origin, directions).contains(pos) <==> exists|k: int|
            0 <= k < directions.len() && on_ray(pieces, color, origin, #[trigger] directions[k], pos),
    decreases directions.len(),
{
    if directions.len() > 0 {
        let front = directions.drop_last();
        let last = directions.last();
        let before = slides(pieces, color, origin, front);
        let added = ray(pieces, color, origin, last.0 as int, last.1 as int);
        lemma_slides_contains(pieces, color, origin, front, pos);
        if (before + added).contains(pos) {
            let i = choose|i: int| 0 <= i < (before + added).len() && (before + added)[i] == pos;
            if i < before.len() {
                assert(before[i] == pos);
                let k = choose|k: int|
                    0 <= k < front.len() && on_ray(pieces, color, origin, #[trigger] front[k], pos);
                assert(on_ray(pieces, color, origin, directions[k], pos));
            } else {
                assert(added[i - before.len()] == pos);
                assert(on_ray(pieces, color, origin, directions[directions.len() - 1], pos));
            }
        }
        if exists|k: int|
            0 <= k < directions.len() && on_ray(pieces, color, origin, #[trigger] directions[k], pos) {
            let k = choose|k: int|
                0 <= k < directions.len() && on_ray(
                    pieces,
                    color,
                    origin,
                    #[trigger] directions[k],
                    pos,
                );
            if k < front.len() {
                assert(on_ray(pieces, color, origin, front[k], pos));
                let i = choose|i: int| 0 <= i < before.len() && before[i] == pos;
                assert((before + added)[i] == pos);
            } else {
                let j = choose|j: int| 0 <= j < added.len() && added[j] == pos;
                assert((before + added)[before.len() + j] == pos);
            }
        }
    }
}

/// One step along a file, a rank or a diagonal.
pub open spec fn unit_direction(direction: (i8, i8)) -> bool {
    &&& -1 <= direction.0 <= 1
    &&& -1 <= direction.1 <= 1
    &&& direction.0 != 0 || direction.1 != 0
}

/// The rays of two different unit directions from one origin share no
/// square.
pub proof fn lemma_rays_apart(
    pieces: Seq<Piece>,
    color: Color,
    origin: BoardPosition,
    first: (i8, i8),
    second: (i8, i8),
    pos: BoardPosition,
)
    requires
        unit_direction(first),
        unit_direction(second),
        first != second,
        on_ray(pieces, color, origin, first, pos),
    ensures
        !on_ray(pieces, color, origin, second, pos),
{
    let one = ray(pieces, color, origin, first.0 as int, first.1 as int);
    let two = ray(pieces, color, origin, second.0 as int, second.1 as int);
    if two.contains(pos) {
        lemma_ray_is_reach(pieces, color, origin, first.0 as int, first.1 as int);
        lemma_ray_is_reach(pieces, color, origin, second.0 as int, second.1 as int);
        let i = choose|i: int| 0 <= i < one.len() && one[i] == pos;
        let j = choose|j: int| 0 <= j < two.len() && two[j] == pos;
        assert(Some(one[i]) == along(origin, first.0 as int, first.1 as int, i + 1));
        assert(Some(two[j]) == along(origin, second.0 as int, second.1 as int, j + 1));
        lemma_unit_multiple(i + 1, first.0 as int);
        lemma_unit_multiple(i + 1, first.1 as int);
        lemma_unit_multiple(j + 1, second.0 as int);
        lemma_unit_multiple(j + 1, second.1 as int);
    }
}

/// A positive multiple of -1, 0 or 1.
proof fn lemma_unit_multiple(n: int, d: int)
    requires
        n >= 1,
        -1 <= d <= 1,
    ensures
        d == 1 ==> n * d == n,
        d == 0 ==> n * d == 0,
        d == -1 ==> n * d == -n,
{
    assert(d == 1 ==> n * d == n) by (nonlinear_arith);
    assert(d == 0 ==> n * d == 0) by (nonlinear_arith);
    assert(d == -1 ==> n * d == -n) by (nonlinear_arith);
}

/// A sliding piece with different unit directions reaches no square twice.
pub proof fn lemma_slides_no_duplicates(
    pieces: Seq<Piece>,
    color: Color,
    origin: BoardPosition,
    directions: Seq<(i8, i8)>,
)
    requires
        directions.no_duplicates(),
        forall|k: int| 0 <= k < directions.len() ==> unit_direction(#[trigger] directions[k]),
    ensures
        slides(pieces, color, origin, directions).no_duplicates(),
    decreases directions.len(),
{
    if directions.len() > 0 {
        let front = directions.drop_last();
        let last = directions.last();
        let before = slides(pieces, color, origin, front);
        let added = ray(pieces, color, origin, last.0 as int, last.1 as int);
        assert forall|k: int| 0 <= k < front.len() implies unit_direction(#[trigger] front[k]) by {
            assert(front[k] == directions[k]);
        }
        lemma_slides_no_duplicates(pieces, color, origin, front);
        lemma_ray_squares(pieces, color, origin, last.0 as int, last.1 as int);
        assert forall|i: int, j: int| 0 <= i < before.len() && 0 <= j < added.len() implies before[i]
            != added[j] by {
            let pos = before[i];
            assert(before.contains(pos));
            lemma_slides_contains(pieces, color, origin, front, pos);
            let k = choose|k: int|
                0 <= k < front.len() && on_ray(pieces, color, origin, #[trigger] front[k], pos);
            assert(front[k] == directions[k]);
            assert(directions[k] != directions[directions.len() - 1]);
            lemma_rays_apart(pieces, color, origin, front[k], last, pos);
            if added[j] == pos {
                assert(added.contains(pos));
            }
        }
        vstd::seq_lib::lemma_no_dup_in_concat(before, added);
    }
}

/// Every square that a piece may move to is on the board, is not the square
/// of the piece, and is empty or holds a piece of the other colour; for a
/// pawn it is empty.
pub proof fn lemma_legal_moves_land(pieces: Seq<Piece>, piece: Piece, pos: BoardPosition)
    requires
        legal_moves(pieces, piece).contains(pos),
    ensures
        pos.valid(),
        pos != piece.pos,
        may_land(pieces, piece.kind.color(), pos),
        piece.kind is Pawn ==> occupant(pieces, pos) is None,
{
    let origin = piece.pos;
    match piece.kind {
        PieceKind::Pawn(color) => {
            let forward = pawn_direction(color);
            let one = advance(pieces, origin, forward);
            let two = advance(pieces, origin, 2 * forward);
            let i = choose|i: int|
                0 <= i < legal_moves(pieces, piece).len() && legal_moves(pieces, piece)[i] == pos;
            if i < one.len() {
                assert(one[i] == pos);
            } else {
                assert(two[i - one.len()] == pos);
            }
        },
        PieceKind::Knight(color) => {
            lemma_steps_land(pieces, color, origin, knight_offsets(), pos);
        },
        PieceKind::King(color) => {
            lemma_steps_land(pieces, color, origin, king_offsets(), pos);
        },
        PieceKind::Rook(color) => {
            lemma_slides_land(pieces, color, origin, rook_directions(), pos);
        },
        PieceKind::Bishop(color) => {
            lemma_slides_land(pieces, color, origin, bishop_directions(), pos);
        },
        PieceKind::Queen(color) => {
            lemma_slides_land(pieces, color, origin, queen_directions(), pos);
        },
    }
}

/// A step that moves lands on the board, off the origin, where the piece may
/// land.
proof fn lemma_steps_land(
    pieces: Seq<Piece>,
    color: Color,
    origin: BoardPosition,
    offsets: Seq<(i8, i8)>,
    pos: BoardPosition,
)
    requires
        steps(pieces, color, origin, offsets).contains(pos),
        forall|k: int| 0 <= k < offsets.len() ==> #[trigger] offsets[k] != (0i8, 0i8),
    ensures
        pos.valid(),
        pos != origin,
        may_land(pieces, color, pos),
{
    lemma_steps_contains(pieces, color, origin, offsets, pos);
    let k = choose|k: int| 0 <= k < offsets.len() && leads_to(origin, #[trigger] offsets[k], pos);
    assert(offsets[k] != (0i8, 0i8));
}

/// A slide lands on the board, off the origin, where the piece may land.
proof fn lemma_slides_land(
    pieces: Seq<Piece>,
    color: Color,
    origin: BoardPosition,
    directions: Seq<(i8, i8)>,
    pos: BoardPosition,
)
    requires
        slides(pieces, color, origin, directions).contains(pos),
    ensures
        pos.valid(),
        pos != origin,
        may_land(pieces, color, pos),
{
    lemma_slides_contains(pieces, color, origin, directions, pos);
    let k = choose|k: int|
        0 <= k < directions.len() && on_ray(pieces, color, origin, #[trigger] directions[k], pos);
    let squares = ray(pieces, color, origin, directions[k].0 as int, directions[k].1 as int);
    lemma_ray_squares(pieces, color, origin, directions[k].0 as int, directions[k].1 as int);
    let i = choose|i: int| 0 <= i < squares.len() && squares[i] == pos;
    assert(squares[i] == pos);
}

/// No square is offered twice among the moves of a piece.
pub proof fn lemma_legal_moves_no_duplicates(pieces: Seq<Piece>, piece: Piece)
    ensures
        legal_moves(pieces, piece).no_duplicates(),
{
    let origin = piece.pos;
    match piece.kind {
        PieceKind::Pawn(color) => {},
        PieceKind::Knight(color) => {
            lemma_steps_no_duplicates(pieces, color, origin, knight_offsets());
        },
        PieceKind::King(color) => {
            lemma_steps_no_duplicates(pieces, color, origin, king_offsets());
        },
        PieceKind::Rook(color) => {
            lemma_slides_no_duplicates(pieces, color, origin, rook_directions());
        },
        PieceKind::Bishop(color) => {
            lemma_slides_no_duplicates(pieces, color, origin, bishop_directions());
        },
        PieceKind::Queen(color) => {
            lemma_slides_no_duplicates(pieces, color, origin, queen_directions());
        },
    }
}

} // verus!
