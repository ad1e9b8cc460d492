//! [`ComputedBoard`]: a board plus its cached duck location, exposing
//! move generation and application for the side to move.

use vstd::prelude::*;

use crate::movegen::{
    all_piece_moves, castle_row, duck_squares, moves_upto, piece_moves_at,
};
use crate::pgn::{PgnMove, PgnPieceMove};
use crate::square::{square_of, Square};
use crate::types::{
    duck_at, piece_move_applicable, spec_apply_duck_move, spec_apply_piece_move, start_board,
    Board, BoardV, Move, PieceKind, PieceMove, Side,
};

verus! {

/// The four fixed squares of a castle of `side`, computed from the side
/// and the castle type alone.
pub open spec fn spec_convert_castle(side: Side, long: bool) -> PieceMove {
    let y = castle_row(side);
    if long {
        PieceMove::Castle {
            from_king: square_of(y * 8 + 4),
            to_king: square_of(y * 8 + 2),
            from_rook: square_of(y * 8),
            to_rook: square_of(y * 8 + 3),
        }
    } else {
        PieceMove::Castle {
            from_king: square_of(y * 8 + 4),
            to_king: square_of(y * 8 + 6),
            from_rook: square_of(y * 8 + 7),
            to_rook: square_of(y * 8 + 5),
        }
    }
}

/// The moves of cell `i` when it holds a piece of the side to move with
/// kind `kind`.
pub open spec fn kind_square_moves(bv: BoardV, kind: PieceKind, i: int) -> Seq<PieceMove> {
    match bv.cells[i] {
        Some(p) => if p.side == bv.next_move && p.kind == kind {
            piece_moves_at(bv, kind, square_of(i))
        } else {
            Seq::empty()
        },
        None => Seq::empty(),
    }
}

/// The moves of the first `n` cells holding `kind`, concatenated.
pub open spec fn kind_moves_upto(bv: BoardV, kind: PieceKind, n: int) -> Seq<PieceMove>
    decreases n,
{
    if n <= 0 {
        Seq::empty()
    } else {
        kind_moves_upto(bv, kind, n - 1) + kind_square_moves(bv, kind, n - 1)
    }
}

/// Every move of the side to move played by a piece of kind `kind`.
pub open spec fn kind_moves(bv: BoardV, kind: PieceKind) -> Seq<PieceMove> {
    kind_moves_upto(bv, kind, 64)
}

/// Whether the candidate move fits the written move: the capture flags
/// agree, the origin agrees when one was written, and the destination
/// agrees.  A castle never fits (it is resolved separately).
pub open spec fn pgn_move_matches(
    cand: PieceMove,
    from: Option<Square>,
    to: Square,
    capture: bool,
) -> bool {
    match cand {
        PieceMove::Piece { from: cf, to: ct, capture: cc, .. } => (cc is Some) == capture
            && (match from {
            Some(f) => cf == f,
            None => true,
        }) && ct == to,
        PieceMove::EnPassant { from: cf, to: ct } => capture && (match from {
            Some(f) => cf == f,
            None => true,
        }) && ct == to,
        PieceMove::Castle { .. } => false,
    }
}

/// The first candidate that fits, if any.
pub open spec fn first_match(
    cands: Seq<PieceMove>,
    from: Option<Square>,
    to: Square,
    capture: bool,
) -> Option<PieceMove>
    decreases cands.len(),
{
    if cands.len() == 0 {
        None
    } else if pgn_move_matches(cands[0], from, to, capture) {
        Some(cands[0])
    } else {
        first_match(cands.drop_first(), from, to, capture)
    }
}

/// Scanning may start after any prefix of non-fitting candidates.
proof fn lemma_first_match_skip(
    cands: Seq<PieceMove>,
    from: Option<Square>,
    to: Square,
    capture: bool,
    idx: int,
)
    requires
        0 <= idx <= cands.len(),
        forall|j: int| 0 <= j < idx ==> !pgn_move_matches(#[trigger] cands[j], from, to, capture),
    ensures
        first_match(cands, from, to, capture) == first_match(
            cands.skip(idx),
            from,
            to,
            capture,
        ),
    decreases idx,
{
    if idx > 0 {
        lemma_first_match_skip(cands, from, to, capture, idx - 1);
        assert(cands.skip(idx - 1).drop_first() =~= cands.skip(idx));
        assert(cands.skip(idx - 1)[0] == cands[idx - 1]);
    } else {
        assert(cands.skip(0) =~= cands);
    }
}

/// How a written move resolves against a board: a castle marker maps to
/// the fixed castle squares of the side to move; any other move picks
/// the first generated move of the written kind that fits the written
/// destination, capture flag and optional origin — or nothing, when no
/// generated move fits.
pub open spec fn spec_convert_pgn_move(bv: BoardV, mv: PgnMove) -> Option<Move> {
    match mv.piece {
        PgnPieceMove::Castle { long } => Some(
            Move {
                piece: spec_convert_castle(bv.next_move, long),
                duck: mv.duck,
                side: bv.next_move,
            },
        ),
        PgnPieceMove::Piece { piece, from, to, capture } => match first_match(
            kind_moves(bv, piece),
            from,
            to,
            capture,
        ) {
            Some(pm) => Some(Move { piece: pm, duck: mv.duck, side: bv.next_move }),
            None => None,
        },
    }
}

/// The written form of a move: the piece kind, destination and capture
/// flag (no disambiguating origin); an en-passant capture prints as a
/// pawn capture; a castle prints as its marker, long when the king
/// lands in file 2.
pub open spec fn spec_move_to_pgn(mv: Move) -> PgnMove {
    match mv.piece {
        PieceMove::Piece { piece, to, capture, .. } => PgnMove {
            piece: PgnPieceMove::Piece { piece, from: None, to, capture: capture is Some },
            duck: mv.duck,
        },
        PieceMove::EnPassant { to, .. } => PgnMove {
            piece: PgnPieceMove::Piece {
                piece: PieceKind::Pawn,
                from: None,
                to,
                capture: true,
            },
            duck: mv.duck,
        },
        PieceMove::Castle { to_king, .. } => PgnMove {
            piece: PgnPieceMove::Castle { long: to_king.idx() % 8 == 2 },
            duck: mv.duck,
        },
    }
}

/// No two cells hold a duck; boards reached by play have exactly one
/// after the first turn, none before.
pub open spec fn at_most_one_duck(bv: BoardV) -> bool {
    forall|i: int, j: int|
        0 <= i < 64 && 0 <= j < 64 && #[trigger] duck_at(bv, i) && #[trigger] duck_at(bv, j)
            ==> i == j
}

/// A board plus the square its duck stands on, kept in step with every
/// duck placement so no scan is needed.
#[derive(Debug, Clone)]
pub struct ComputedBoard {
    inner: Board,
    duck_square: Option<Square>,
}

impl ComputedBoard {
    /// The model of the carried board.
    pub closed spec fn bv(&self) -> BoardV {
        self.inner@
    }

    /// The cached duck location.
    pub closed spec fn duck_sq(&self) -> Option<Square> {
        self.duck_square
    }

    /// The cache is exact: `duck_square` names the one cell holding the
    /// duck, or `None` when no cell does.
    pub open spec fn wf(&self) -> bool {
        &&& self.bv().wf()
        &&& match self.duck_sq() {
            Some(d) => duck_at(self.bv(), d.idx()) && forall|i: int|
                0 <= i < 64 && #[trigger] duck_at(self.bv(), i) ==> i == d.idx(),
            None => forall|i: int| 0 <= i < 64 ==> !#[trigger] duck_at(self.bv(), i),
        }
    }

    /// Wraps a board, deriving the duck location by one scan.  The board
    /// must be well formed and hold at most one duck.
    pub fn from_board(board: Board) -> (r: ComputedBoard)
        requires
            board@.wf(),
            at_most_one_duck(board@),
        ensures
            r.bv() == board@,
            r.wf(),
    {
        let duck_square = Self::find_duck(&board);
        ComputedBoard { duck_square, inner: board }
    }

    /// The first square holding a duck, if any.
    #[verifier::loop_isolation(false)]
    fn find_duck(board: &Board) -> (r: Option<Square>)
        requires
            board@.wf(),
        ensures
            match r {
                Some(s) => duck_at(board@, s.idx()),
                None => forall|i: int| 0 <= i < 64 ==> !#[trigger] duck_at(board@, i),
            },
    {
        let mut i: usize = 0;
        while i < 64
            invariant
                i <= 64,
                forall|j: int| 0 <= j < i ==> !#[trigger] duck_at(board@, j),
            decreases 64 - i,
        {
            let square = Square::from_u8(i as u8);
            if let Some(p) = board.piece_at(square) {
                if p.kind.is_duck() {
                    return Some(square);
                }
            }
            i += 1;
        }
        None
    }

    /// The carried board.
    pub fn board(&self) -> (r: &Board)
        ensures
            r@ == self.bv(),
    {
        &self.inner
    }

    /// Unwraps the carried board.
    pub fn into_board(self) -> (r: Board)
        ensures
            r@ == self.bv(),
    {
        self.inner
    }

    /// A fresh game: the standard start position, no duck yet.
    pub fn new() -> (r: ComputedBoard)
        ensures
            r.bv() == start_board(),
            r.wf(),
    {
        let mut board = Board::new();
        board.set_start_position();
        proof {
            assert forall|i: int| 0 <= i < 64 implies !#[trigger] duck_at(board@, i) by {
                assert(board@.cells[i] == crate::types::spec_start_cell(i));
            }
        }
        Self::from_board(board)
    }

    /// A copy with the same model.
    pub fn duplicate(&self) -> (r: ComputedBoard)
        ensures
            r.bv() == self.bv(),
            r.duck_sq() == self.duck_sq(),
    {
        ComputedBoard { inner: self.inner.duplicate(), duck_square: self.duck_square }
    }

    /// The side to move.
    pub fn next_move_side(&self) -> (r: Side)
        ensures
            r == self.bv().next_move,
    {
        self.inner.next_move
    }

    /// Whether a piece was already moved this turn, so that the duck
    /// placement is outstanding; otherwise a piece move is expected.
    pub fn moved_piece(&self) -> (r: bool)
        ensures
            r == self.bv().moved_piece,
    {
        self.inner.moved_piece
    }

    /// Fills `list` with every move of the side to move (see
    /// [`all_piece_moves`]).
    #[verifier::loop_isolation(false)]
    pub fn available_piece_moves(&self, list: &mut Vec<PieceMove>)
        requires
            self.bv().wf(),
            !self.bv().moved_piece,
            self.bv().no_own_duck(),
            old(list)@.len() == 0,
        ensures
            final(list)@ == all_piece_moves(self.bv()),
    {
        let my_side = self.inner.next_move;
        let mut i: usize = 0;
        while i < 64
            invariant
                i <= 64,
                list@ == moves_upto(self.bv(), i as int),
            decreases 64 - i,
        {
            let square = Square::from_u8(i as u8);
            if let Some(piece) = self.inner.piece_at(square) {
                if piece.side == my_side {
                    self.inner.available_piece_moves(piece.kind, square, list);
                }
            }
            proof {
                assert(list@ =~= moves_upto(self.bv(), i as int + 1));
            }
            i += 1;
        }
    }

    /// Fills `list` with every legal duck destination: every empty
    /// square.
    pub fn available_duck_squares(&self, list: &mut Vec<Square>)
        requires
            self.bv().wf(),
            self.bv().moved_piece,
            old(list)@.len() == 0,
        ensures
            final(list)@ == duck_squares(self.bv()),
    {
        self.inner.available_duck_squares(list);
        proof {
            assert(list@ =~= duck_squares(self.bv()));
        }
    }

    /// Resolves a written move against this board, as
    /// [`spec_convert_pgn_move`] says.  The written kind must not be
    /// the duck; no written form names it.
    #[verifier::loop_isolation(false)]
    pub fn convert_pgn_move(&self, mv: PgnMove) -> (r: Option<Move>)
        requires
            self.bv().wf(),
            !self.bv().moved_piece,
            (match mv.piece {
                PgnPieceMove::Piece { piece, .. } => piece != PieceKind::Duck,
                PgnPieceMove::Castle { .. } => true,
            }),
        ensures
            r == spec_convert_pgn_move(self.bv(), mv),
    {
        let (piece, from, to, capture): (PieceKind, Option<Square>, Square, bool) = match mv.piece {
            PgnPieceMove::Piece { piece, from, to, capture } => (piece, from, to, capture),
            PgnPieceMove::Castle { long } => {
                let side = self.inner.next_move;
                let y: u8 = match side {
                    Side::White => 7,
                    Side::Black => 0,
                };
                let castle = if long {
                    PieceMove::Castle {
                        from_king: Square::from_xy(4, y),
                        to_king: Square::from_xy(2, y),
                        from_rook: Square::from_xy(0, y),
                        to_rook: Square::from_xy(3, y),
                    }
                } else {
                    PieceMove::Castle {
                        from_king: Square::from_xy(4, y),
                        to_king: Square::from_xy(6, y),
                        from_rook: Square::from_xy(7, y),
                        to_rook: Square::from_xy(5, y),
                    }
                };
                return Some(Move { piece: castle, duck: mv.duck, side });
            },
        };

        let my_side = self.inner.next_move;
        let mut list: Vec<PieceMove> = Vec::new();
        let mut i: usize = 0;
        while i < 64
            invariant
                i <= 64,
                list@ == kind_moves_upto(self.bv(), piece, i as int),
            decreases 64 - i,
        {
            let square = Square::from_u8(i as u8);
            if let Some(p) = self.inner.piece_at(square) {
                if p.side == my_side && p.kind == piece {
                    self.inner.available_piece_moves(piece, square, &mut list);
                }
            }
            proof {
                assert(list@ =~= kind_moves_upto(self.bv(), piece, i as int + 1));
            }
            i += 1;
        }

        let mut idx: usize = 0;
        while idx < list.len()
            invariant
                idx <= list@.len(),
                forall|j: int|
                    0 <= j < idx ==> !pgn_move_matches(#[trigger] list@[j], from, to, capture),
            decreases list@.len() - idx,
        {
            let cand = list[idx];
            let is_match = match cand {
                PieceMove::Piece { from: cf, to: ct, capture: cc, .. } => cc.is_some() == capture
                    && (match from {
                    Some(f) => cf == f,
                    None => true,
                }) && ct == to,
                PieceMove::EnPassant { from: cf, to: ct } => capture && (match from {
                    Some(f) => cf == f,
                    None => true,
                }) && ct == to,
                PieceMove::Castle { .. } => false,
            };
            if is_match {
                proof {
                    lemma_first_match_skip(list@, from, to, capture, idx as int);
                    assert(list@.skip(idx as int)[0] == list@[idx as int]);
                }
                return Some(Move { piece: cand, duck: mv.duck, side: my_side });
            }
            idx += 1;
        }
        proof {
            lemma_first_match_skip(list@, from, to, capture, list@.len() as int);
            assert(list@.skip(list@.len() as int).len() == 0);
        }
        None
    }

    /// The written form of `mv`, as [`spec_move_to_pgn`] says.
    pub fn convert_move_to_pgn(&self, mv: Move) -> (r: PgnMove)
        ensures
            r == spec_move_to_pgn(mv),
    {
        match mv.piece {
            PieceMove::Piece { piece, to, capture, .. } => PgnMove {
                piece: PgnPieceMove::Piece { piece, from: None, to, capture: capture.is_some() },
                duck: mv.duck,
            },
            PieceMove::EnPassant { to, .. } => PgnMove {
                piece: PgnPieceMove::Piece {
                    piece: PieceKind::Pawn,
                    from: None,
                    to,
                    capture: true,
                },
                duck: mv.duck,
            },
            PieceMove::Castle { to_king, .. } => PgnMove {
                piece: PgnPieceMove::Castle { long: to_king.x() == 2 },
                duck: mv.duck,
            },
        }
    }

    /// Plays the piece-move half of a turn; the move must be applicable
    /// (every generated move is).  The duck cache is untouched; a
    /// generated move never disturbs the duck.
    pub fn apply_piece_move(&mut self, piece_move: PieceMove)
        requires
            old(self).bv().wf(),
            !old(self).bv().moved_piece,
            piece_move_applicable(old(self).bv(), piece_move),
        ensures
            final(self).bv() == spec_apply_piece_move(old(self).bv(), piece_move),
            final(self).duck_sq() == old(self).duck_sq(),
    {
        self.inner.apply_piece_move(piece_move);
    }

    /// Ready for the next turn: the cache is exact, a piece move is
    /// expected, no duck belongs to the side to move, and the
    /// en-passant target (if any) does not hold the duck.
    pub open spec fn turn_ready(&self) -> bool {
        &&& self.wf()
        &&& !self.bv().moved_piece
        &&& self.bv().no_own_duck()
        &&& crate::types::ep_not_duck(self.bv())
    }

    /// Plays a whole generated turn: the piece move must be among the
    /// generated moves and the duck square among the empty squares
    /// after it.  The board comes out ready for the next turn.
    pub fn apply_move(&mut self, piece_move: PieceMove, duck: Square)
        requires
            old(self).turn_ready(),
            all_piece_moves(old(self).bv()).contains(piece_move),
            duck_squares(spec_apply_piece_move(old(self).bv(), piece_move)).contains(duck),
        ensures
            final(self).turn_ready(),
            final(self).bv() == spec_apply_duck_move(
                spec_apply_piece_move(old(self).bv(), piece_move),
                duck,
                old(self).duck_sq(),
            ),
            final(self).duck_sq() == Some(duck),
    {
        let ghost oldbv = old(self).bv();
        proof {
            crate::movegen::lemma_generated_applicable(oldbv, piece_move);
        }
        self.apply_piece_move(piece_move);
        proof {
            broadcast use crate::square::lemma_idx_range;

            crate::movegen::lemma_piece_move_keeps_duck(oldbv, piece_move);
            let a = self.bv();
            match self.duck_sq() {
                Some(d) => {
                    assert(duck_at(a, d.idx()) == duck_at(oldbv, d.idx()));
                    assert forall|i: int| 0 <= i < 64 && #[trigger] duck_at(a, i) implies i
                        == d.idx() by {
                        assert(duck_at(oldbv, i));
                    }
                },
                None => {
                    assert forall|i: int| 0 <= i < 64 implies !#[trigger] duck_at(a, i) by {
                        assert(duck_at(a, i) == duck_at(oldbv, i));
                    }
                },
            }
            assert(self.wf());
            crate::movegen::lemma_duck_squares_contains(self.bv(), 64, duck);
        }
        let ghost afterp = self.bv();
        self.apply_duck_move(duck);
        proof {
            broadcast use crate::square::lemma_idx_range;

            let newbv = self.bv();
            assert(newbv.no_own_duck()) by {
                assert forall|i: int|
                    0 <= i < 64 implies match #[trigger] newbv.cells[i] {
                    Some(p) => p.kind == crate::types::PieceKind::Duck ==> p.side
                        != newbv.next_move,
                    None => true,
                } by {
                    if duck_at(newbv, i) {
                        assert(i == duck.idx());
                    }
                }
            }
            assert(crate::types::ep_not_duck(newbv)) by {
                match newbv.en_passant {
                    Some(e) => {
                        assert(afterp.cells[e.idx()] is Some);
                        assert(afterp.cells[duck.idx()] is None);
                        assert(e.idx() != duck.idx());
                        if duck_at(newbv, e.idx()) {
                            assert(e.idx() == duck.idx());
                        }
                    },
                    None => {},
                }
            }
        }
    }

    /// Plays the duck placement of a turn: clears the cached duck
    /// location, places the duck on `square`, and caches it.
    pub fn apply_duck_move(&mut self, square: Square)
        requires
            old(self).wf(),
            old(self).bv().moved_piece,
        ensures
            final(self).bv() == spec_apply_duck_move(old(self).bv(), square, old(self).duck_sq()),
            final(self).duck_sq() == Some(square),
            final(self).wf(),
    {
        self.inner.apply_duck_move(square, self.duck_square);
        self.duck_square = Some(square);
        proof {
            broadcast use crate::square::lemma_idx_range;

            let bv = self.bv();
            let oldbv = old(self).bv();
            assert forall|i: int| 0 <= i < 64 && #[trigger] duck_at(bv, i) implies i
                == square.idx() by {
                crate::square::lemma_idx_range(square);
                if i != square.idx() {
                    match old(self).duck_sq() {
                        Some(d) => {
                            crate::square::lemma_idx_range(d);
                            if i != d.idx() {
                                assert(bv.cells[i] == oldbv.cells[i]);
                                assert(!duck_at(oldbv, i));
                            }
                        },
                        None => {
                            assert(bv.cells[i] == oldbv.cells[i]);
                            assert(!duck_at(oldbv, i));
                        },
                    }
                }
            }
        }
    }
}

} // verus!
