//! The move search and its ranking structure.

use duck_chess::logic::ComputedBoard;
use duck_chess::search::{
    evaluate_board, piece_kind_to_point, search_moves, ScoredMove, TopMoves,
};
use duck_chess::square::Square;
use duck_chess::types::{Board, CanCastle, Move, Piece, PieceKind, PieceMove, Side};

#[test]
fn piece_points() {
    assert_eq!(piece_kind_to_point(PieceKind::Pawn), 1);
    assert_eq!(piece_kind_to_point(PieceKind::Knight), 3);
    assert_eq!(piece_kind_to_point(PieceKind::Bishop), 3);
    assert_eq!(piece_kind_to_point(PieceKind::Rook), 5);
    assert_eq!(piece_kind_to_point(PieceKind::Queen), 9);
    assert_eq!(piece_kind_to_point(PieceKind::King), 99);
    assert_eq!(piece_kind_to_point(PieceKind::Duck), 0);
}

#[test]
fn start_position_is_balanced() {
    let board = ComputedBoard::new();
    assert_eq!(evaluate_board(board.board(), Side::White), 0);
    assert_eq!(evaluate_board(board.board(), Side::Black), 0);
}

#[test]
fn evaluation_counts_material() {
    let mut board = ComputedBoard::new().into_board();
    // remove the black queen
    board.board[Square::D8.as_index() as usize] = None;
    assert_eq!(evaluate_board(&board, Side::White), 9);
    assert_eq!(evaluate_board(&board, Side::Black), -9);
}

#[test]
fn depth_one_enumerates_396_pairs() {
    // 20 piece moves, each followed by its reasonable duck squares,
    // summed over all moves
    let board = ComputedBoard::new();
    let result = search_moves(&board, 1, 5);
    assert_eq!(result.considered, 396);

    // the same number, counted through the generation interface
    let mut moves = vec![];
    board.available_piece_moves(&mut moves);
    assert_eq!(moves.len(), 20);
    let mut total = 0;
    for mv in &moves {
        let mut after = board.duplicate();
        after.apply_piece_move(*mv);
        let mut ducks = vec![];
        after.board().reasonable_duck_squares(&mut ducks);
        total += ducks.len();
    }
    assert_eq!(total, 396);
}

#[test]
fn search_returns_sorted_legal_turns() {
    let board = ComputedBoard::new();
    let result = search_moves(&board, 1, 5);
    assert_eq!(result.moves.len(), 5);
    let mut moves = vec![];
    board.available_piece_moves(&mut moves);
    for pair in result.moves.windows(2) {
        assert!(pair[0].score >= pair[1].score);
    }
    for entry in &result.moves {
        assert_eq!(entry.mov.side, Side::White);
        assert!(moves.contains(&entry.mov.piece));
        let mut after = board.duplicate();
        after.apply_piece_move(entry.mov.piece);
        let mut ducks = vec![];
        after.board().reasonable_duck_squares(&mut ducks);
        assert!(ducks.contains(&entry.mov.duck));
    }
}

#[test]
fn depth_one_scores_are_material_balances() {
    // no first move captures anything, so every leaf stays balanced
    let board = ComputedBoard::new();
    let result = search_moves(&board, 1, 396);
    assert_eq!(result.moves.len(), 396);
    assert!(result.moves.iter().all(|e| e.score == 0));
}

#[test]
fn depth_one_prefers_the_capture() {
    // a lone white rook next to the black queen
    let mut inner = Board::new();
    inner.board[Square::D4.as_index() as usize] =
        Some(Piece { kind: PieceKind::Rook, side: Side::White });
    inner.board[Square::D8.as_index() as usize] =
        Some(Piece { kind: PieceKind::Queen, side: Side::Black });
    inner.board[Square::H1.as_index() as usize] =
        Some(Piece { kind: PieceKind::King, side: Side::White });
    inner.board[Square::H8.as_index() as usize] =
        Some(Piece { kind: PieceKind::King, side: Side::Black });
    inner.can_castle = CanCastle { white: (false, false), black: (false, false) };
    let board = ComputedBoard::from_board(inner);

    let result = search_moves(&board, 1, 1);
    assert_eq!(result.moves.len(), 1);
    let best = &result.moves[0];
    // with the queen gone, white keeps its rook as the whole edge
    assert_eq!(best.score, 5);
    assert_eq!(
        best.mov.piece,
        PieceMove::Piece {
            piece: PieceKind::Rook,
            from: Square::D4,
            to: Square::D8,
            capture: Some(PieceKind::Queen),
            promotion: None,
        }
    );
}

#[test]
fn search_two_plies_runs() {
    let board = ComputedBoard::new();
    let result = search_moves(&board, 2, 3);
    assert_eq!(result.moves.len(), 3);
    for pair in result.moves.windows(2) {
        assert!(pair[0].score >= pair[1].score);
    }
}

fn entry(score: i64, duck: Square) -> ScoredMove {
    ScoredMove {
        score,
        mov: Move {
            piece: PieceMove::Piece {
                piece: PieceKind::Pawn,
                from: Square::E2,
                to: Square::E3,
                capture: None,
                promotion: None,
            },
            duck,
            side: Side::White,
        },
    }
}

#[test]
fn top_moves_keep_the_best() {
    let mut top = TopMoves::new(2);
    top.insert(entry(1, Square::A1));
    top.insert(entry(3, Square::B1));
    top.insert(entry(2, Square::C1));
    let entries = top.into_entries();
    assert_eq!(entries.len(), 2);
    assert_eq!(entries[0].score, 3);
    assert_eq!(entries[1].score, 2);
}

#[test]
fn top_moves_ties_keep_the_earlier() {
    let mut top = TopMoves::new(2);
    top.insert(entry(5, Square::A1));
    top.insert(entry(5, Square::B1));
    top.insert(entry(5, Square::C1));
    let entries = top.into_entries();
    assert_eq!(entries.len(), 2);
    assert_eq!(entries[0].mov.duck, Square::A1);
    assert_eq!(entries[1].mov.duck, Square::B1);
}
