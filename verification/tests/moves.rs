use chess::{Board, BoardPosition, Color, Piece, PieceKind, Pieces};

fn board_of(pieces: &[Piece]) -> Board {
    let mut held = Pieces::new();
    for piece in pieces {
        held.push(*piece);
    }
    Board::new(held)
}

fn squares(pairs: &[(i8, i8)]) -> Vec<BoardPosition> {
    pairs.iter().map(|&(x, y)| BoardPosition::new(x, y)).collect()
}

fn sorted(mut moves: Vec<BoardPosition>) -> Vec<(i8, i8)> {
    let mut pairs: Vec<(i8, i8)> = moves.drain(..).map(|pos| (pos.x, pos.y)).collect();
    pairs.sort();
    pairs
}

#[test]
fn a_knight_in_the_corner_has_two_moves() {
    let board = board_of(&[]);
    let knight = Piece::new(0, 0, PieceKind::Knight(Color::White));
    let moves = board.get_legal_moves(knight);
    assert_eq!(moves, squares(&[(2, 1), (1, 2)]));
    assert_eq!(sorted(moves), vec![(1, 2), (2, 1)]);
}

#[test]
fn a_knight_in_the_middle_has_eight_moves_in_the_order_of_its_jumps() {
    let board = board_of(&[]);
    let knight = Piece::new(3, 3, PieceKind::Knight(Color::Black));
    assert_eq!(
        board.get_legal_moves(knight),
        squares(&[(5, 4), (5, 2), (4, 5), (4, 1), (1, 4), (1, 2), (2, 5), (2, 1)])
    );
}

#[test]
fn a_knight_jumps_over_pieces_takes_the_other_colour_and_spares_its_own() {
    let board = board_of(&[
        Piece::new(4, 3, PieceKind::Pawn(Color::White)),
        Piece::new(3, 4, PieceKind::Pawn(Color::Black)),
        Piece::new(5, 4, PieceKind::Pawn(Color::White)),
        Piece::new(1, 2, PieceKind::Pawn(Color::Black)),
    ]);
    let knight = Piece::new(3, 3, PieceKind::Knight(Color::White));
    assert_eq!(
        board.get_legal_moves(knight),
        squares(&[(5, 2), (4, 5), (4, 1), (1, 4), (1, 2), (2, 5), (2, 1)])
    );
}

#[test]
fn a_rook_in_the_corner_of_an_empty_board_has_its_file_and_its_rank() {
    let board = board_of(&[]);
    let rook = Piece::new(0, 0, PieceKind::Rook(Color::White));
    let moves = board.get_legal_moves(rook);
    assert_eq!(moves.len(), 14);
    assert_eq!(
        moves,
        squares(&[
            (1, 0),
            (2, 0),
            (3, 0),
            (4, 0),
            (5, 0),
            (6, 0),
            (7, 0),
            (0, 1),
            (0, 2),
            (0, 3),
            (0, 4),
            (0, 5),
            (0, 6),
            (0, 7),
        ])
    );
}

#[test]
fn a_rook_walks_towards_zero_first_then_towards_seven() {
    let board = board_of(&[]);
    let rook = Piece::new(2, 5, PieceKind::Rook(Color::Black));
    assert_eq!(
        board.get_legal_moves(rook),
        squares(&[
            (1, 5),
            (0, 5),
            (3, 5),
            (4, 5),
            (5, 5),
            (6, 5),
            (7, 5),
            (2, 4),
            (2, 3),
            (2, 2),
            (2, 1),
            (2, 0),
            (2, 6),
            (2, 7),
        ])
    );
}

#[test]
fn a_bishop_in_the_middle_of_an_empty_board_has_its_four_diagonals() {
    let board = board_of(&[]);
    let bishop = Piece::new(3, 3, PieceKind::Bishop(Color::White));
    let moves = board.get_legal_moves(bishop);
    assert_eq!(
        moves,
        squares(&[
            (4, 4),
            (5, 5),
            (6, 6),
            (7, 7),
            (2, 4),
            (1, 5),
            (0, 6),
            (4, 2),
            (5, 1),
            (6, 0),
            (2, 2),
            (1, 1),
            (0, 0),
        ])
    );
    let mut expected = Vec::new();
    for x in 0..8i8 {
        for y in 0..8i8 {
            if (x, y) != (3, 3) && (x - 3).abs() == (y - 3).abs() {
                expected.push((x, y));
            }
        }
    }
    assert_eq!(sorted(moves), expected);
}

#[test]
fn a_white_pawn_on_its_home_rank_has_one_and_two_steps() {
    let board = board_of(&[]);
    let pawn = Piece::new(4, 6, PieceKind::Pawn(Color::White));
    assert_eq!(board.get_legal_moves(pawn), squares(&[(4, 5), (4, 4)]));
}

#[test]
fn a_blocked_first_step_leaves_the_pawn_its_second() {
    let board = board_of(&[Piece::new(4, 5, PieceKind::Pawn(Color::Black))]);
    let pawn = Piece::new(4, 6, PieceKind::Pawn(Color::White));
    assert_eq!(board.get_legal_moves(pawn), squares(&[(4, 4)]));
}

#[test]
fn a_pawn_takes_nothing_and_passes_no_piece_of_either_colour() {
    let pawn = Piece::new(4, 6, PieceKind::Pawn(Color::White));
    let own = board_of(&[Piece::new(4, 5, PieceKind::Knight(Color::White))]);
    assert_eq!(own.get_legal_moves(pawn), squares(&[(4, 4)]));
    let far = board_of(&[Piece::new(4, 4, PieceKind::Knight(Color::Black))]);
    assert_eq!(far.get_legal_moves(pawn), squares(&[(4, 5)]));
    let both = board_of(&[
        Piece::new(4, 5, PieceKind::Knight(Color::Black)),
        Piece::new(4, 4, PieceKind::Knight(Color::Black)),
    ]);
    assert_eq!(both.get_legal_moves(pawn), squares(&[]));
    let beside = board_of(&[
        Piece::new(3, 5, PieceKind::Knight(Color::Black)),
        Piece::new(5, 5, PieceKind::Knight(Color::Black)),
    ]);
    assert_eq!(beside.get_legal_moves(pawn), squares(&[(4, 5), (4, 4)]));
}

#[test]
fn a_black_pawn_moves_up_the_ranks() {
    let board = board_of(&[]);
    let home = Piece::new(2, 1, PieceKind::Pawn(Color::Black));
    assert_eq!(board.get_legal_moves(home), squares(&[(2, 2), (2, 3)]));
    let later = Piece::new(2, 3, PieceKind::Pawn(Color::Black));
    assert_eq!(board.get_legal_moves(later), squares(&[(2, 4)]));
    let last = Piece::new(2, 7, PieceKind::Pawn(Color::Black));
    assert_eq!(board.get_legal_moves(last), squares(&[]));
}

#[test]
fn a_pawn_off_its_home_rank_has_one_step() {
    let board = board_of(&[]);
    let white = Piece::new(0, 5, PieceKind::Pawn(Color::White));
    assert_eq!(board.get_legal_moves(white), squares(&[(0, 4)]));
    let at_the_end = Piece::new(0, 0, PieceKind::Pawn(Color::White));
    assert_eq!(board.get_legal_moves(at_the_end), squares(&[]));
}

#[test]
fn a_pawn_on_the_home_rank_of_the_other_side_has_one_step() {
    let board = board_of(&[]);
    let white = Piece::new(3, 1, PieceKind::Pawn(Color::White));
    assert_eq!(board.get_legal_moves(white), squares(&[(3, 0)]));
    let black = Piece::new(3, 6, PieceKind::Pawn(Color::Black));
    assert_eq!(board.get_legal_moves(black), squares(&[(3, 7)]));
}

#[test]
fn a_ray_stops_before_a_piece_of_its_own_colour() {
    let board = board_of(&[Piece::new(4, 0, PieceKind::Pawn(Color::White))]);
    let rook = Piece::new(0, 0, PieceKind::Rook(Color::White));
    let moves = board.get_legal_moves(rook);
    assert_eq!(
        moves,
        squares(&[(1, 0), (2, 0), (3, 0), (0, 1), (0, 2), (0, 3), (0, 4), (0, 5), (0, 6), (0, 7)])
    );
}

#[test]
fn a_ray_ends_on_a_piece_of_the_other_colour() {
    let board = board_of(&[Piece::new(4, 0, PieceKind::Pawn(Color::Black))]);
    let rook = Piece::new(0, 0, PieceKind::Rook(Color::White));
    let moves = board.get_legal_moves(rook);
    assert_eq!(
        moves,
        squares(&[
            (1, 0),
            (2, 0),
            (3, 0),
            (4, 0),
            (0, 1),
            (0, 2),
            (0, 3),
            (0, 4),
            (0, 5),
            (0, 6),
            (0, 7),
        ])
    );
}

#[test]
fn a_blocker_next_to_the_piece_closes_the_ray() {
    let rook = Piece::new(3, 3, PieceKind::Rook(Color::White));
    let own = board_of(&[
        Piece::new(2, 3, PieceKind::Pawn(Color::White)),
        Piece::new(4, 3, PieceKind::Pawn(Color::White)),
        Piece::new(3, 2, PieceKind::Pawn(Color::White)),
        Piece::new(3, 4, PieceKind::Pawn(Color::White)),
    ]);
    assert_eq!(own.get_legal_moves(rook), squares(&[]));
    let other = board_of(&[
        Piece::new(2, 3, PieceKind::Pawn(Color::Black)),
        Piece::new(4, 3, PieceKind::Pawn(Color::Black)),
        Piece::new(3, 2, PieceKind::Pawn(Color::Black)),
        Piece::new(3, 4, PieceKind::Pawn(Color::Black)),
    ]);
    assert_eq!(other.get_legal_moves(rook), squares(&[(2, 3), (4, 3), (3, 2), (3, 4)]));
}

#[test]
fn a_bishop_is_blocked_on_each_diagonal_by_itself() {
    let board = board_of(&[
        Piece::new(5, 5, PieceKind::Pawn(Color::White)),
        Piece::new(1, 5, PieceKind::Pawn(Color::Black)),
        Piece::new(4, 2, PieceKind::Pawn(Color::Black)),
    ]);
    let bishop = Piece::new(3, 3, PieceKind::Bishop(Color::White));
    assert_eq!(
        board.get_legal_moves(bishop),
        squares(&[(4, 4), (2, 4), (1, 5), (4, 2), (2, 2), (1, 1), (0, 0)])
    );
}

#[test]
fn a_queen_has_the_moves_of_a_rook_and_then_those_of_a_bishop() {
    let board = board_of(&[
        Piece::new(5, 3, PieceKind::Pawn(Color::Black)),
        Piece::new(3, 1, PieceKind::Pawn(Color::White)),
        Piece::new(5, 5, PieceKind::Pawn(Color::White)),
    ]);
    for color in [Color::White, Color::Black] {
        let mut expected = board.get_legal_moves(Piece::new(3, 3, PieceKind::Rook(color)));
        expected.extend(board.get_legal_moves(Piece::new(3, 3, PieceKind::Bishop(color))));
        assert_eq!(board.get_legal_moves(Piece::new(3, 3, PieceKind::Queen(color))), expected);
    }
    let queen = Piece::new(3, 3, PieceKind::Queen(Color::White));
    assert_eq!(
        board.get_legal_moves(queen),
        squares(&[
            (2, 3),
            (1, 3),
            (0, 3),
            (4, 3),
            (5, 3),
            (3, 2),
            (3, 4),
            (3, 5),
            (3, 6),
            (3, 7),
            (4, 4),
            (2, 4),
            (1, 5),
            (0, 6),
            (4, 2),
            (5, 1),
            (6, 0),
            (2, 2),
            (1, 1),
            (0, 0),
        ])
    );
}

#[test]
fn a_queen_in_the_middle_of_an_empty_board_has_twenty_seven_moves() {
    let board = board_of(&[]);
    let queen = Piece::new(3, 3, PieceKind::Queen(Color::Black));
    assert_eq!(board.get_legal_moves(queen).len(), 27);
}

#[test]
fn a_king_steps_once_each_way_in_the_order_of_its_steps() {
    let board = board_of(&[]);
    let king = Piece::new(4, 4, PieceKind::King(Color::White));
    assert_eq!(
        board.get_legal_moves(king),
        squares(&[(5, 5), (3, 3), (5, 4), (3, 4), (4, 5), (4, 3), (3, 5), (5, 3)])
    );
    let corner = Piece::new(7, 0, PieceKind::King(Color::White));
    assert_eq!(board.get_legal_moves(corner), squares(&[(6, 0), (7, 1), (6, 1)]));
}

#[test]
fn a_king_takes_the_other_colour_and_spares_its_own() {
    let board = board_of(&[
        Piece::new(5, 5, PieceKind::Pawn(Color::Black)),
        Piece::new(3, 3, PieceKind::Pawn(Color::White)),
        Piece::new(4, 5, PieceKind::Rook(Color::White)),
    ]);
    let king = Piece::new(4, 4, PieceKind::King(Color::White));
    assert_eq!(
        board.get_legal_moves(king),
        squares(&[(5, 5), (5, 4), (3, 4), (4, 3), (3, 5), (5, 3)])
    );
}

#[test]
fn the_piece_need_not_stand_on_the_board() {
    let with = board_of(&[Piece::new(0, 0, PieceKind::Rook(Color::White))]);
    let without = board_of(&[]);
    let rook = Piece::new(0, 0, PieceKind::Rook(Color::White));
    assert_eq!(with.get_legal_moves(rook), without.get_legal_moves(rook));
}

#[test]
fn at_the_start_only_pawns_and_knights_can_move() {
    let board = Board::default();
    let mut total = 0;
    for piece in board.pieces().iter() {
        let moves = board.get_legal_moves(*piece);
        match piece.kind {
            PieceKind::Pawn(_) => assert_eq!(moves.len(), 2),
            PieceKind::Knight(_) => assert_eq!(moves.len(), 2),
            _ => assert_eq!(moves.len(), 0),
        }
        total += moves.len();
    }
    assert_eq!(total, 40);
    let knight = Piece::new(1, 7, PieceKind::Knight(Color::White));
    assert_eq!(board.get_legal_moves(knight), squares(&[(2, 5), (0, 5)]));
}

#[test]
fn generating_moves_twice_gives_the_same_and_leaves_the_board() {
    let board = Board::default();
    let knight = Piece::new(6, 0, PieceKind::Knight(Color::Black));
    let first = board.get_legal_moves(knight);
    let second = board.get_legal_moves(knight);
    assert_eq!(first, second);
    assert_eq!(*board.pieces(), Pieces::default());
}

/// A small generator of numbers, the same in every run.
struct Numbers(u64);

impl Numbers {
    fn next(&mut self, bound: u64) -> u64 {
        self.0 = self.0.wrapping_mul(6364136223846793005).wrapping_add(1442695040888963407);
        (self.0 >> 33) % bound
    }

    fn color(&mut self) -> Color {
        if self.next(2) == 0 {
            Color::Black
        } else {
            Color::White
        }
    }

    fn kind(&mut self) -> PieceKind {
        let color = self.color();
        match self.next(6) {
            0 => PieceKind::Pawn(color),
            1 => PieceKind::Rook(color),
            2 => PieceKind::Knight(color),
            3 => PieceKind::Bishop(color),
            4 => PieceKind::Queen(color),
            _ => PieceKind::King(color),
        }
    }

    fn piece(&mut self) -> Piece {
        let x = self.next(8) as i8;
        let y = self.next(8) as i8;
        Piece::new(x, y, self.kind())
    }

    fn position(&mut self) -> Vec<Piece> {
        let wanted = self.next(33) as usize;
        let mut pieces: Vec<Piece> = Vec::new();
        while pieces.len() < wanted {
            let piece = self.piece();
            if pieces.iter().all(|other| other.pos != piece.pos) {
                pieces.push(piece);
            }
        }
        pieces
    }
}

fn on(pieces: &[Piece], x: i8, y: i8) -> Option<Piece> {
    pieces.iter().find(|piece| piece.pos.x == x && piece.pos.y == y).copied()
}

/// One rank or file walked in a single pass: the squares below the piece
/// first, nearest first, then those above it.
fn walk_line(pieces: &[Piece], piece: Piece, along_x: bool, out: &mut Vec<(i8, i8)>) {
    let here = if along_x { piece.pos.x } else { piece.pos.y };
    let mut coord: i8 = 1;
    while coord < 8 {
        let there = if coord <= here { here - coord } else { here + (coord - here) };
        let (x, y) = if along_x { (there, piece.pos.y) } else { (piece.pos.x, there) };
        match on(pieces, x, y) {
            None => out.push((x, y)),
            Some(other) => {
                if other.kind.color() != piece.kind.color() {
                    out.push((x, y));
                }
                if coord > here {
                    break;
                }
                coord = here + 1;
                continue;
            }
        }
        coord += 1;
    }
}

fn walk_diagonal(pieces: &[Piece], piece: Piece, dx: i8, dy: i8, out: &mut Vec<(i8, i8)>) {
    let (mut x, mut y) = (piece.pos.x, piece.pos.y);
    while (0..=7).contains(&(x + dx)) && (0..=7).contains(&(y + dy)) {
        x += dx;
        y += dy;
        match on(pieces, x, y) {
            None => out.push((x, y)),
            Some(other) => {
                if other.kind.color() != piece.kind.color() {
                    out.push((x, y));
                }
                break;
            }
        }
    }
}

fn hop(pieces: &[Piece], piece: Piece, offsets: &[(i8, i8)], out: &mut Vec<(i8, i8)>) {
    for &(dx, dy) in offsets {
        let (x, y) = (piece.pos.x + dx, piece.pos.y + dy);
        if !(0..=7).contains(&x) || !(0..=7).contains(&y) {
            continue;
        }
        match on(pieces, x, y) {
            Some(other) if other.kind.color() == piece.kind.color() => (),
            _ => out.push((x, y)),
        }
    }
}

/// The moves of `piece`, worked out square by square.
fn expected_moves(pieces: &[Piece], piece: Piece) -> Vec<(i8, i8)> {
    let mut out = Vec::new();
    match piece.kind {
        PieceKind::Pawn(color) => {
            let reach = if piece.pos.y == 1 || piece.pos.y == 6 { 2 } else { 1 };
            for step in 1..=reach {
                let y = match color {
                    Color::Black => piece.pos.y + step,
                    Color::White => piece.pos.y - step,
                };
                if (0..=7).contains(&y) && on(pieces, piece.pos.x, y).is_none() {
                    out.push((piece.pos.x, y));
                }
            }
        }
        PieceKind::Rook(_) => {
            walk_line(pieces, piece, true, &mut out);
            walk_line(pieces, piece, false, &mut out);
        }
        PieceKind::Knight(_) => hop(
            pieces,
            piece,
            &[(2, 1), (2, -1), (1, 2), (1, -2), (-2, 1), (-2, -1), (-1, 2), (-1, -2)],
            &mut out,
        ),
        PieceKind::Bishop(_) => {
            walk_diagonal(pieces, piece, 1, 1, &mut out);
            walk_diagonal(pieces, piece, -1, 1, &mut out);
            walk_diagonal(pieces, piece, 1, -1, &mut out);
            walk_diagonal(pieces, piece, -1, -1, &mut out);
        }
        PieceKind::Queen(_) => {
            walk_line(pieces, piece, true, &mut out);
            walk_line(pieces, piece, false, &mut out);
            walk_diagonal(pieces, piece, 1, 1, &mut out);
            walk_diagonal(pieces, piece, -1, 1, &mut out);
            walk_diagonal(pieces, piece, 1, -1, &mut out);
            walk_diagonal(pieces, piece, -1, -1, &mut out);
        }
        PieceKind::King(_) => hop(
            pieces,
            piece,
            &[(1, 1), (-1, -1), (1, 0), (-1, 0), (0, 1), (0, -1), (-1, 1), (1, -1)],
            &mut out,
        ),
    }
    out
}

#[test]
fn on_many_positions_the_moves_are_those_worked_out_square_by_square() {
    let mut numbers = Numbers(2024);
    for _ in 0..400 {
        let pieces = numbers.position();
        let board = board_of(&pieces);
        for _ in 0..20 {
            let piece = numbers.piece();
            let got: Vec<(i8, i8)> =
                board.get_legal_moves(piece).iter().map(|pos| (pos.x, pos.y)).collect();
            assert_eq!(got, expected_moves(&pieces, piece));
        }
    }
}

#[test]
fn on_many_positions_every_move_is_on_the_board_lands_rightly_and_comes_once() {
    let mut numbers = Numbers(7);
    for _ in 0..400 {
        let pieces = numbers.position();
        let board = board_of(&pieces);
        for _ in 0..20 {
            let piece = numbers.piece();
            let moves = board.get_legal_moves(piece);
            for (i, pos) in moves.iter().enumerate() {
                assert!(BoardPosition::in_board(pos.x) && BoardPosition::in_board(pos.y));
                assert_ne!(*pos, piece.pos);
                match board.find(*pos) {
                    None => (),
                    Some(other) => {
                        assert_ne!(other.kind.color(), piece.kind.color());
                        assert!(!matches!(piece.kind, PieceKind::Pawn(_)));
                    }
                }
                assert!(moves.iter().skip(i + 1).all(|later| later != pos));
            }
        }
    }
}

#[test]
fn on_many_positions_each_ray_ends_at_the_first_piece_in_its_way() {
    let mut numbers = Numbers(99);
    let directions: [(i8, i8); 8] =
        [(-1, 0), (1, 0), (0, -1), (0, 1), (1, 1), (-1, 1), (1, -1), (-1, -1)];
    for _ in 0..300 {
        let pieces = numbers.position();
        let board = board_of(&pieces);
        let color = numbers.color();
        let origin = BoardPosition::new(numbers.next(8) as i8, numbers.next(8) as i8);
        let moves = board.get_legal_moves(Piece { pos: origin, kind: PieceKind::Queen(color) });
        let mut expected = Vec::new();
        for (dx, dy) in directions {
            let mut at = origin;
            while let Some(next) = at.try_add(dx, dy) {
                match board.find(next) {
                    None => expected.push(next),
                    Some(blocker) => {
                        if blocker.kind.color() != color {
                            expected.push(next);
                        }
                        break;
                    }
                }
                at = next;
            }
        }
        assert_eq!(moves, expected);
    }
}
