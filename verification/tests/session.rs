//! The session core: submissions, rejections, history.

use duck_chess::logic::ComputedBoard;
use duck_chess::pgn::parse_moves;
use duck_chess::session::{Inner, MakeMoveResp};
use duck_chess::square::Square;
use duck_chess::types::{Move, PieceKind, PieceMove, Side};

fn make_move_pgn(
    inner: &mut Inner,
    id: u64,
    name: &str,
    move_count: u16,
    mv: &str,
) -> MakeMoveResp {
    let board = inner.current_state().board;
    let comp = ComputedBoard::from_board(board);
    let mut moves = parse_moves(&format!("1. {} 0-0", mv)).expect("pgn wrong");
    let mv = comp
        .convert_pgn_move(moves.pop().unwrap())
        .expect("move unknown");
    inner.make_move(id, name.into(), move_count, mv, 0)
}

#[test]
fn play_chess() {
    let mut chess = Inner::new();

    let id1: u64 = 1;
    let id2: u64 = 2;

    // let's make the first move
    let resp = make_move_pgn(&mut chess, id1, "Sören", 0, "e4e6");
    assert!(matches!(resp, MakeMoveResp::Accepted { .. }));
    let resp = make_move_pgn(&mut chess, id2, "Sören", 1, "Nc6e2");
    assert!(matches!(resp, MakeMoveResp::Accepted { .. }));
    assert_eq!(chess.history.moves.len(), 2);
}

fn first_turn() -> Move {
    Move {
        piece: PieceMove::Piece {
            piece: PieceKind::Pawn,
            from: Square::E2,
            to: Square::E4,
            capture: None,
            promotion: None,
        },
        duck: Square::E6,
        side: Side::White,
    }
}

#[test]
fn stale_submission_always_rejected() {
    let mut chess = Inner::new();
    // a legal move under a wrong claimed index is stale
    let resp = chess.make_move(7, "ada".into(), 3, first_turn(), 0);
    match resp {
        MakeMoveResp::ToSlow { name } => assert_eq!(name, ""),
        other => panic!("expected stale, got {:?}", other),
    }
    assert_eq!(chess.history.moves.len(), 0);

    // an illegal move under a wrong claimed index is stale too
    let mut nonsense = first_turn();
    nonsense.piece = PieceMove::Piece {
        piece: PieceKind::Queen,
        from: Square::A4,
        to: Square::B6,
        capture: None,
        promotion: None,
    };
    let resp = chess.make_move(7, "ada".into(), 1, nonsense, 0);
    assert!(matches!(resp, MakeMoveResp::ToSlow { .. }));

    // after one accepted move the stale answer names the last mover
    let resp = chess.make_move(7, "ada".into(), 0, first_turn(), 0);
    assert!(matches!(resp, MakeMoveResp::Accepted { .. }));
    let resp = chess.make_move(8, "bob".into(), 5, first_turn(), 0);
    match resp {
        MakeMoveResp::ToSlow { name } => assert_eq!(name, "ada"),
        other => panic!("expected stale, got {:?}", other),
    }
}

#[test]
fn double_submit_rejected() {
    let mut chess = Inner::new();
    let resp = chess.make_move(7, "ada".into(), 0, first_turn(), 11);
    match resp {
        MakeMoveResp::Accepted { board, history } => {
            assert_eq!(history.con_id, 7);
            assert_eq!(history.name, "ada");
            assert_eq!(history.time, 11);
            assert_eq!(board.next_move, Side::Black);
        }
        other => panic!("expected acceptance, got {:?}", other),
    }

    // the same submitter again, with the updated index
    let reply = Move {
        piece: PieceMove::Piece {
            piece: PieceKind::Pawn,
            from: Square::D7,
            to: Square::D5,
            capture: None,
            promotion: None,
        },
        duck: Square::D3,
        side: Side::Black,
    };
    let resp = chess.make_move(7, "ada".into(), 1, reply, 12);
    assert!(matches!(resp, MakeMoveResp::AlreadyMoved));
    assert_eq!(chess.history.moves.len(), 1);

    // another submitter with the same move is accepted
    let resp = chess.make_move(8, "bob".into(), 1, reply, 13);
    assert!(matches!(resp, MakeMoveResp::Accepted { .. }));
}

#[test]
fn wrong_move_rejected() {
    let mut chess = Inner::new();
    // the piece half is not available
    let mut mv = first_turn();
    mv.piece = PieceMove::Piece {
        piece: PieceKind::Queen,
        from: Square::D1,
        to: Square::D4,
        capture: None,
        promotion: None,
    };
    let resp = chess.make_move(7, "ada".into(), 0, mv, 0);
    assert!(matches!(resp, MakeMoveResp::WrongMove));

    // the duck half lands on an occupied square
    let mut mv = first_turn();
    mv.duck = Square::E8;
    let resp = chess.make_move(7, "ada".into(), 0, mv, 0);
    assert!(matches!(resp, MakeMoveResp::WrongMove));
    assert_eq!(chess.history.moves.len(), 0);
}

#[test]
fn accepted_move_updates_state() {
    let mut chess = Inner::new();
    let resp = chess.make_move(7, "ada".into(), 0, first_turn(), 5);
    let resp_board = match resp {
        MakeMoveResp::Accepted { board, .. } => board,
        other => panic!("expected acceptance, got {:?}", other),
    };
    let state = chess.current_state();
    assert_eq!(state.board.board, resp_board.board);
    assert_eq!(state.history.moves.len(), 1);
    assert_eq!(state.history.moves[0].mov, first_turn());
    // the pawn is on e4, the duck on e6
    assert_eq!(
        state.board.piece_at(Square::E4).map(|p| p.kind),
        Some(PieceKind::Pawn)
    );
    assert_eq!(
        state.board.piece_at(Square::E6).map(|p| p.kind),
        Some(PieceKind::Duck)
    );
    assert_eq!(state.board.piece_at(Square::E2), None);
}
