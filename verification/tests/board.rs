//! Squares, directions, the board, and move generation.

use duck_chess::engine::BitBoard;
use duck_chess::logic::ComputedBoard;
use duck_chess::lookup::has_neighbor;
use duck_chess::square::{Direction, Square};
use duck_chess::types::{Board, CanCastle, Piece, PieceKind, PieceMove, Side};

fn sq_xy(square: Square) -> (u8, u8) {
    (square.x(), square.y())
}

#[test]
fn square_xy() {
    assert_eq!(sq_xy(Square::A8), (0, 0));
    assert_eq!(sq_xy(Square::H8), (7, 0));
    assert_eq!(sq_xy(Square::A1), (0, 7));
    assert_eq!(sq_xy(Square::H1), (7, 7));
    assert_eq!(Square::from_xy(0, 0), Square::A8);
    assert_eq!(Square::from_xy(7, 0), Square::H8);
    assert_eq!(Square::from_xy(0, 7), Square::A1);
    assert_eq!(Square::from_xy(7, 7), Square::H1);
}

#[test]
fn apply_dir() {
    let mut square = Square::E4;
    assert!(square.apply_dir(Direction::Up));
    assert_eq!(square, Square::E5);
    assert!(square.apply_dir(Direction::UpLeft));
    assert_eq!(square, Square::D6);
}

#[test]
fn apply_dir_stops_at_edge() {
    let mut square = Square::A8;
    assert!(!square.apply_dir(Direction::Up));
    assert_eq!(square, Square::A8);
    assert!(!square.apply_dir(Direction::Left));
    assert_eq!(square, Square::A8);
    assert!(square.apply_dir(Direction::DownRight));
    assert_eq!(square, Square::B7);
}

#[test]
fn square_from_u8_round_trip() {
    for i in 0..64u8 {
        let s = Square::from_u8(i);
        assert_eq!(s.as_index(), i);
        assert_eq!(s.x(), i % 8);
        assert_eq!(s.y(), i / 8);
    }
}

#[test]
fn available_moves() {
    let board = ComputedBoard::new();
    let mut list = vec![];
    board.available_piece_moves(&mut list);
    assert_eq!(list.len(), 20);
}

#[test]
fn side_other_flips() {
    assert_eq!(Side::White.other(), Side::Black);
    assert_eq!(Side::Black.other(), Side::White);
}

#[test]
fn duck_kind() {
    assert!(PieceKind::Duck.is_duck());
    assert!(!PieceKind::Pawn.is_duck());
}

#[test]
fn directions_per_kind() {
    assert_eq!(PieceKind::Rook.directions().len(), 4);
    assert_eq!(PieceKind::Bishop.directions().len(), 4);
    assert_eq!(PieceKind::Queen.directions().len(), 8);
    assert_eq!(PieceKind::King.directions().len(), 8);
    assert_eq!(PieceKind::Knight.directions().len(), 0);
    assert_eq!(PieceKind::Pawn.directions().len(), 0);
}

#[test]
fn bitboard_set_and_test() {
    let mut bb = BitBoard::new();
    assert!(!bb.is_set(Square::C3));
    bb.set(Square::C3);
    assert!(bb.is_set(Square::C3));
    assert!(!bb.is_set(Square::C4));
    bb.set_val(Square::D5, false);
    assert!(!bb.is_set(Square::D5));
    bb.set_val(Square::D5, true);
    assert!(bb.is_set(Square::D5));
    let inv = bb.invert();
    assert!(!inv.is_set(Square::C3));
    assert!(inv.is_set(Square::C4));
}

#[test]
fn neighbor_lookup() {
    let mut bb = BitBoard::new();
    bb.set(Square::D4);
    assert!(has_neighbor(Square::C3, bb));
    assert!(has_neighbor(Square::D5, bb));
    assert!(has_neighbor(Square::E5, bb));
    assert!(!has_neighbor(Square::D4, bb));
    assert!(!has_neighbor(Square::F4, bb));
    assert!(!has_neighbor(Square::A1, bb));
}

#[test]
fn start_position_layout() {
    let mut board = Board::new();
    board.set_start_position();
    assert_eq!(
        board.piece_at(Square::A8),
        Some(Piece { kind: PieceKind::Rook, side: Side::Black })
    );
    assert_eq!(
        board.piece_at(Square::E1),
        Some(Piece { kind: PieceKind::King, side: Side::White })
    );
    assert_eq!(
        board.piece_at(Square::D8),
        Some(Piece { kind: PieceKind::Queen, side: Side::Black })
    );
    assert_eq!(
        board.piece_at(Square::B2),
        Some(Piece { kind: PieceKind::Pawn, side: Side::White })
    );
    assert_eq!(board.piece_at(Square::E4), None);
    assert_eq!(board.next_move, Side::White);
    assert!(!board.moved_piece);
    assert_eq!(board.en_passant, None);
}

#[test]
fn duck_squares_are_empty_squares() {
    let mut board = Board::new();
    board.set_start_position();
    board.moved_piece = true;
    let mut list = vec![];
    board.available_duck_squares(&mut list);
    assert_eq!(list.len(), 32);
    for s in &list {
        assert!(board.piece_at(*s).is_none());
    }
}

#[test]
fn reasonable_is_subset_of_available() {
    let mut board = Board::new();
    board.set_start_position();
    board.moved_piece = true;
    let mut all = vec![];
    board.available_duck_squares(&mut all);
    let mut reasonable = vec![];
    board.reasonable_duck_squares(&mut reasonable);
    assert!(!reasonable.is_empty());
    for s in &reasonable {
        assert!(all.contains(s));
    }
}

/// A board with only the two white castling pieces and both kings.
fn castle_board() -> Board {
    let mut board = Board::new();
    board.board[Square::E1.as_index() as usize] =
        Some(Piece { kind: PieceKind::King, side: Side::White });
    board.board[Square::A1.as_index() as usize] =
        Some(Piece { kind: PieceKind::Rook, side: Side::White });
    board.board[Square::H1.as_index() as usize] =
        Some(Piece { kind: PieceKind::Rook, side: Side::White });
    board.board[Square::E8.as_index() as usize] =
        Some(Piece { kind: PieceKind::King, side: Side::Black });
    board
}

fn count_castles(board: &Board) -> usize {
    let mut list = vec![];
    board.available_piece_moves(PieceKind::King, Square::E1, &mut list);
    list.iter()
        .filter(|m| matches!(m, PieceMove::Castle { .. }))
        .count()
}

#[test]
fn castling_gone_for_good_after_king_moved() {
    let mut board = castle_board();
    assert_eq!(count_castles(&board), 2);

    // the king steps out and back; the rights never return
    let out = PieceMove::Piece {
        piece: PieceKind::King,
        from: Square::E1,
        to: Square::E2,
        capture: None,
        promotion: None,
    };
    board.apply_piece_move(out);
    board.apply_duck_move(Square::H5, None);
    assert_eq!(board.can_castle.white, (false, false));

    // a quiet black reply
    let reply = PieceMove::Piece {
        piece: PieceKind::King,
        from: Square::E8,
        to: Square::E7,
        capture: None,
        promotion: None,
    };
    board.apply_piece_move(reply);
    board.apply_duck_move(Square::H6, Some(Square::H5));

    let back = PieceMove::Piece {
        piece: PieceKind::King,
        from: Square::E2,
        to: Square::E1,
        capture: None,
        promotion: None,
    };
    board.apply_piece_move(back);
    board.apply_duck_move(Square::H5, Some(Square::H6));

    assert_eq!(board.can_castle.white, (false, false));
    let mut board2 = board.duplicate();
    board2.next_move = Side::White;
    assert_eq!(count_castles(&board2), 0);
}

#[test]
fn rook_move_revokes_one_side() {
    let mut board = castle_board();
    let mv = PieceMove::Piece {
        piece: PieceKind::Rook,
        from: Square::A1,
        to: Square::A3,
        capture: None,
        promotion: None,
    };
    board.apply_piece_move(mv);
    assert_eq!(board.can_castle.white, (false, true));
    assert_eq!(board.can_castle.black, (true, true));
}

#[test]
fn set_can_castle_touches_only_the_mover() {
    let mut board = Board::new();
    board.next_move = Side::Black;
    board.set_can_castle(false, true);
    assert_eq!(
        board.can_castle,
        CanCastle { white: (true, true), black: (false, true) }
    );
}

#[test]
fn en_passant_set_only_by_double_push() {
    let mut board = Board::new();
    board.set_start_position();
    let double = PieceMove::Piece {
        piece: PieceKind::Pawn,
        from: Square::E2,
        to: Square::E4,
        capture: None,
        promotion: None,
    };
    board.apply_piece_move(double);
    assert_eq!(board.en_passant, Some(Square::E4));
    board.apply_duck_move(Square::E6, None);
    // the duck placement keeps the target alive for the reply
    assert_eq!(board.en_passant, Some(Square::E4));

    let single = PieceMove::Piece {
        piece: PieceKind::Pawn,
        from: Square::D7,
        to: Square::D6,
        capture: None,
        promotion: None,
    };
    board.apply_piece_move(single);
    assert_eq!(board.en_passant, None);
}

#[test]
fn en_passant_capture_removes_pushed_pawn() {
    let mut board = Board::new();
    board.board[Square::E5.as_index() as usize] =
        Some(Piece { kind: PieceKind::Pawn, side: Side::White });
    board.board[Square::D7.as_index() as usize] =
        Some(Piece { kind: PieceKind::Pawn, side: Side::Black });
    board.next_move = Side::Black;

    let double = PieceMove::Piece {
        piece: PieceKind::Pawn,
        from: Square::D7,
        to: Square::D5,
        capture: None,
        promotion: None,
    };
    board.apply_piece_move(double);
    board.apply_duck_move(Square::A1, None);
    assert_eq!(board.en_passant, Some(Square::D5));

    // the white pawn's move list offers exactly one en-passant capture
    let mut list = vec![];
    board.available_piece_moves(PieceKind::Pawn, Square::E5, &mut list);
    let ep = list
        .iter()
        .find(|m| matches!(m, PieceMove::EnPassant { .. }))
        .copied()
        .expect("en passant offered");
    assert_eq!(ep, PieceMove::EnPassant { from: Square::E5, to: Square::D6 });

    board.apply_piece_move(ep);
    // the pushed pawn is gone from d5; the capturer sits on d6
    assert_eq!(board.piece_at(Square::D5), None);
    assert_eq!(board.piece_at(Square::E5), None);
    assert_eq!(
        board.piece_at(Square::D6),
        Some(Piece { kind: PieceKind::Pawn, side: Side::White })
    );
}

#[test]
fn duck_is_never_capturable() {
    let mut board = Board::new();
    board.board[Square::D4.as_index() as usize] =
        Some(Piece { kind: PieceKind::Rook, side: Side::White });
    board.board[Square::D6.as_index() as usize] =
        Some(Piece { kind: PieceKind::Duck, side: Side::Black });
    board.board[Square::D7.as_index() as usize] =
        Some(Piece { kind: PieceKind::Queen, side: Side::Black });
    let mut list = vec![];
    board.available_piece_moves(PieceKind::Rook, Square::D4, &mut list);
    // upward the rook reaches only d5: the duck blocks without being a target
    assert!(list.contains(&PieceMove::Piece {
        piece: PieceKind::Rook,
        from: Square::D4,
        to: Square::D5,
        capture: None,
        promotion: None,
    }));
    for m in &list {
        if let PieceMove::Piece { to, .. } = m {
            assert_ne!(*to, Square::D6);
            assert_ne!(*to, Square::D7);
        }
    }
}

#[test]
fn promotion_offers_four_kinds() {
    let mut board = Board::new();
    board.board[Square::A7.as_index() as usize] =
        Some(Piece { kind: PieceKind::Pawn, side: Side::White });
    let mut list = vec![];
    board.available_piece_moves(PieceKind::Pawn, Square::A7, &mut list);
    let promos: Vec<_> = list
        .iter()
        .filter_map(|m| match m {
            PieceMove::Piece { promotion: Some(k), .. } => Some(*k),
            _ => None,
        })
        .collect();
    assert_eq!(
        promos,
        vec![
            PieceKind::Rook,
            PieceKind::Knight,
            PieceKind::Bishop,
            PieceKind::Queen
        ]
    );
}

fn boards_equal(a: &Board, b: &Board) -> bool {
    a.board == b.board
        && a.can_castle == b.can_castle
        && a.en_passant == b.en_passant
        && a.next_move == b.next_move
        && a.moved_piece == b.moved_piece
}

#[test]
fn apply_move_composes_from_halves() {
    // playing the two halves one by one equals playing the whole turn
    let one = ComputedBoard::new();
    let mut by_halves = one.duplicate();
    let mut whole = one.duplicate();

    let mv = PieceMove::Piece {
        piece: PieceKind::Knight,
        from: Square::B1,
        to: Square::C3,
        capture: None,
        promotion: None,
    };
    by_halves.apply_piece_move(mv);
    by_halves.apply_duck_move(Square::E4);

    whole.apply_move(mv, Square::E4);

    assert!(boards_equal(by_halves.board(), whole.board()));
    assert_eq!(whole.board().next_move, Side::Black);
    assert!(!whole.board().moved_piece);
}
