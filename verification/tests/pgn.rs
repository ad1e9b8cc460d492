//! The textual move format: parsing, resolution, and the round trip.

use duck_chess::logic::ComputedBoard;
use duck_chess::pgn::{parse_moves, Error, PgnMove, PgnPieceMove};
use duck_chess::square::Square;
use duck_chess::types::{Board, Move, Piece, PieceKind, PieceMove, Side};

#[test]
fn test_parsing() {
    let moves = parse_moves(
        "
\t\t\t1. e2e4 d7d6
\t\t\t2. Nb1c3 g7g6
\t\t\t3. Ng1f3 Bf8g7
\t\t\t4. Bf1e2 c7c6
\t\t",
    )
    .unwrap();

    let correct_moves = vec![
        PgnMove {
            piece: PgnPieceMove::Piece {
                piece: PieceKind::Pawn,
                from: None,
                to: Square::E2,
                capture: false,
            },
            duck: Square::E4,
        },
        PgnMove {
            piece: PgnPieceMove::Piece {
                piece: PieceKind::Pawn,
                from: None,
                to: Square::D7,
                capture: false,
            },
            duck: Square::D6,
        },
        PgnMove {
            piece: PgnPieceMove::Piece {
                piece: PieceKind::Knight,
                from: None,
                to: Square::B1,
                capture: false,
            },
            duck: Square::C3,
        },
    ];

    assert_eq!(&moves[..correct_moves.len()], &correct_moves);
}

#[test]
fn parsing_round_trip() {
    // the named scenario: two pawn moves with their duck squares
    let moves = parse_moves("1. e2e4 d7d6").unwrap();
    assert_eq!(moves.len(), 2);
    assert_eq!(
        moves[0],
        PgnMove {
            piece: PgnPieceMove::Piece {
                piece: PieceKind::Pawn,
                from: None,
                to: Square::E2,
                capture: false,
            },
            duck: Square::E4,
        }
    );
    assert_eq!(
        moves[1],
        PgnMove {
            piece: PgnPieceMove::Piece {
                piece: PieceKind::Pawn,
                from: None,
                to: Square::D7,
                capture: false,
            },
            duck: Square::D6,
        }
    );

    // writing the equivalent structured moves back yields the same tokens
    let board = ComputedBoard::new();
    let first = Move {
        piece: PieceMove::Piece {
            piece: PieceKind::Pawn,
            from: Square::E3,
            to: Square::E2,
            capture: None,
            promotion: None,
        },
        duck: Square::E4,
        side: Side::Black,
    };
    assert_eq!(board.convert_move_to_pgn(first), moves[0]);
    let second = Move {
        piece: PieceMove::Piece {
            piece: PieceKind::Pawn,
            from: Square::D8,
            to: Square::D7,
            capture: None,
            promotion: None,
        },
        duck: Square::D6,
        side: Side::Black,
    };
    assert_eq!(board.convert_move_to_pgn(second), moves[1]);
}

#[test]
fn convert_round_trip_on_board() {
    // a legal opening move resolves against the start position and
    // prints back as the very token that was parsed
    let board = ComputedBoard::new();
    let parsed = parse_moves("1. e4e6 0-0").unwrap();
    assert_eq!(parsed.len(), 1);
    let mv = board.convert_pgn_move(parsed[0].clone()).expect("legal move");
    assert_eq!(mv.side, Side::White);
    assert_eq!(mv.duck, Square::E6);
    assert_eq!(
        mv.piece,
        PieceMove::Piece {
            piece: PieceKind::Pawn,
            from: Square::E2,
            to: Square::E4,
            capture: None,
            promotion: None,
        }
    );
    assert_eq!(board.convert_move_to_pgn(mv), parsed[0]);
}

#[test]
fn convert_castle_needs_no_lookup() {
    let board = ComputedBoard::new();
    let parsed = parse_moves("1. O-O-Oe4 0-0").unwrap();
    let mv = board.convert_pgn_move(parsed[0].clone()).expect("castle resolves");
    assert_eq!(
        mv.piece,
        PieceMove::Castle {
            from_king: Square::E1,
            to_king: Square::C1,
            from_rook: Square::A1,
            to_rook: Square::D1,
        }
    );
    assert_eq!(mv.duck, Square::E4);
}

#[test]
fn convert_rejects_unavailable_move() {
    let board = ComputedBoard::new();
    // no white piece can reach e7 on the first move
    let parsed = parse_moves("1. e7a3 0-0").unwrap();
    assert_eq!(board.convert_pgn_move(parsed[0].clone()), None);
}

#[test]
fn disambiguating_origin_is_honored() {
    // two rooks share the a-file; the rank digit picks the nearer one
    let mut inner = Board::new();
    inner.board[Square::A1.as_index() as usize] =
        Some(Piece { kind: PieceKind::Rook, side: Side::White });
    inner.board[Square::A5.as_index() as usize] =
        Some(Piece { kind: PieceKind::Rook, side: Side::White });
    let board = ComputedBoard::from_board(inner);

    let parsed = parse_moves("1. R1a3h5 0-0").unwrap();
    let mv = board.convert_pgn_move(parsed[0].clone()).expect("the a1 rook");
    match mv.piece {
        PieceMove::Piece { piece, from, to, .. } => {
            assert_eq!(piece, PieceKind::Rook);
            assert_eq!(from, Square::A1);
            assert_eq!(to, Square::A3);
        }
        other => panic!("unexpected move {:?}", other),
    }
}

#[test]
fn error_number_expected() {
    assert_eq!(parse_moves("x"), Err(Error::NumberExpected));
    assert_eq!(parse_moves("12 e4e6"), Err(Error::NumberExpected));
}

#[test]
fn error_number_overflow() {
    assert_eq!(
        parse_moves("99999999999999999999999999. e4e6 0-0"),
        Err(Error::NumberExpected)
    );
}

#[test]
fn error_incorrect_move() {
    assert_eq!(parse_moves("1. ab"), Err(Error::IncorrectMove));
    assert_eq!(parse_moves("1. exxxg3e5 0-0"), Err(Error::IncorrectMove));
}

#[test]
fn error_expected_square() {
    assert_eq!(parse_moves("1. e2z9 0-0"), Err(Error::ExpectedSquare));
    assert_eq!(parse_moves("1. e0e4 0-0"), Err(Error::ExpectedSquare));
}

#[test]
fn error_unknown_piece() {
    assert_eq!(parse_moves("1. Xe4e5 0-0"), Err(Error::UnknownPiece(b'X')));
}

#[test]
fn result_token_ends_list() {
    let moves = parse_moves("1. e4e6 0-0").unwrap();
    assert_eq!(moves.len(), 1);
    let moves = parse_moves("1. e4e6 d5d4 2. 1-0").unwrap();
    assert_eq!(moves.len(), 2);
    assert_eq!(parse_moves("").unwrap(), vec![]);
    assert_eq!(parse_moves("   \n\t ").unwrap(), vec![]);
}

#[test]
fn capture_marker_is_parsed() {
    let moves = parse_moves("1. exd5c4 0-0").unwrap();
    assert_eq!(
        moves[0],
        PgnMove {
            piece: PgnPieceMove::Piece {
                piece: PieceKind::Pawn,
                from: Some(Square::E5),
                to: Square::D5,
                capture: true,
            },
            duck: Square::C4,
        }
    );
}
