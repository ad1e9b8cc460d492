//! Bounded-depth move search: negamax with alpha–beta pruning over a
//! [`ComputedBoard`], ranking whole turns (piece move plus duck
//! placement) for the side to move.
//!
//! Duck placements are drawn from the pruning heuristic
//! [`reasonable_squares`], a search-quality trade-off; legality checks
//! elsewhere accept any empty square.

use vstd::prelude::*;

use crate::logic::ComputedBoard;
use crate::movegen::{
    all_piece_moves, lemma_generated_applicable, lemma_reasonable_subset_of_available,
    reasonable_squares,
};
use crate::square::Square;
use crate::types::{
    lemma_apply_move_composes, spec_apply_full_move, spec_apply_piece_move, Board, BoardV, Move,
    Piece, PieceKind, PieceMove, Side,
};

verus! {

/// Scores stay well inside this bound; it also serves as the infinite
/// alpha–beta window edges.
pub const MAX_SCORE: i64 = 1000000;

/// The material value of a piece kind, in pawns.
pub open spec fn piece_value(kind: PieceKind) -> int {
    match kind {
        PieceKind::Rook => 5,
        PieceKind::Knight => 3,
        PieceKind::Bishop => 3,
        PieceKind::King => 99,
        PieceKind::Queen => 9,
        PieceKind::Pawn => 1,
        PieceKind::Duck => 0,
    }
}

/// The signed value of one cell from `pov`'s point of view.
pub open spec fn cell_value(c: Option<Piece>, pov: Side) -> int {
    match c {
        Some(p) => if p.side == pov {
            piece_value(p.kind)
        } else {
            -piece_value(p.kind)
        },
        None => 0,
    }
}

/// The material balance of the first `n` cells.
pub open spec fn eval_upto(bv: BoardV, pov: Side, n: int) -> int
    decreases n,
{
    if n <= 0 {
        0
    } else {
        eval_upto(bv, pov, n - 1) + cell_value(bv.cells[n - 1], pov)
    }
}

/// The material balance of the whole board from `pov`'s point of view:
/// own pieces count positive, the opponent's negative, the duck zero.
pub open spec fn eval_spec(bv: BoardV, pov: Side) -> int {
    eval_upto(bv, pov, 64)
}

/// The balance of `n` cells stays within `99 * n` pawns.
pub proof fn lemma_eval_bounds(bv: BoardV, pov: Side, n: int)
    requires
        0 <= n,
    ensures
        -99 * n <= eval_upto(bv, pov, n) <= 99 * n,
    decreases n,
{
    if n > 0 {
        lemma_eval_bounds(bv, pov, n - 1);
    }
}

/// The material value of a piece kind, in pawns.
pub fn piece_kind_to_point(kind: PieceKind) -> (r: i64)
    ensures
        r == piece_value(kind),
{
    match kind {
        PieceKind::Rook => 5,
        PieceKind::Knight | PieceKind::Bishop => 3,
        PieceKind::King => 99,
        PieceKind::Queen => 9,
        PieceKind::Pawn => 1,
        PieceKind::Duck => 0,
    }
}

/// The material balance of `board` from `pov`'s point of view.
#[verifier::loop_isolation(false)]
pub fn evaluate_board(board: &Board, pov: Side) -> (r: i64)
    requires
        board@.wf(),
    ensures
        r == eval_spec(board@, pov),
        -99 * 64 <= r <= 99 * 64,
{
    let mut val: i64 = 0;
    let mut i: usize = 0;
    while i < 64
        invariant
            i <= 64,
            val == eval_upto(board@, pov, i as int),
            -99 * i <= val <= 99 * i,
        decreases 64 - i,
    {
        let square = Square::from_u8(i as u8);
        if let Some(p) = board.piece_at(square) {
            let v = piece_kind_to_point(p.kind);
            if p.side == pov {
                val = val + v;
            } else {
                val = val - v;
            }
        }
        i += 1;
    }
    proof {
        lemma_eval_bounds(board@, pov, 64);
    }
    val
}

/// One ranked turn.
#[derive(Debug, Clone, Copy)]
pub struct ScoredMove {
    pub score: i64,
    pub mov: Move,
}

/// Scores never increase along the list.
pub open spec fn sorted_desc(entries: Seq<ScoredMove>) -> bool {
    forall|i: int, j: int|
        0 <= i < j < entries.len() ==> (#[trigger] entries[i]).score >= (#[trigger] entries[j]).score
}

/// Where a new entry with `score` goes: after every entry whose score
/// is at least as high, so equal scores keep the earlier entry first.
pub open spec fn insert_pos(entries: Seq<ScoredMove>, score: int) -> int
    decreases entries.len(),
{
    if entries.len() == 0 {
        0
    } else if entries[0].score >= score {
        1 + insert_pos(entries.drop_first(), score)
    } else {
        0
    }
}

/// What one bounded insertion leaves behind: the new entry at its
/// stable position, the tail cut to the bound.
pub open spec fn spec_topk_insert(entries: Seq<ScoredMove>, m: ScoredMove, cap: int) -> Seq<
    ScoredMove,
> {
    let full = entries.insert(insert_pos(entries, m.score as int), m);
    if full.len() > cap {
        full.take(cap)
    } else {
        full
    }
}

/// The insertion position splits a sorted list: higher-or-equal scores
/// before it, strictly lower ones after it, and it lies in range.
proof fn lemma_insert_pos(entries: Seq<ScoredMove>, score: int)
    requires
        sorted_desc(entries),
    ensures
        0 <= insert_pos(entries, score) <= entries.len(),
        forall|i: int|
            0 <= i < insert_pos(entries, score) ==> (#[trigger] entries[i]).score >= score,
        forall|i: int|
            insert_pos(entries, score) <= i < entries.len() ==> (#[trigger] entries[i]).score
                < score,
    decreases entries.len(),
{
    if entries.len() > 0 {
        let rest = entries.drop_first();
        assert(sorted_desc(rest)) by {
            assert forall|i: int, j: int| 0 <= i < j < rest.len() implies (#[trigger] rest[i]).score
                >= (#[trigger] rest[j]).score by {
                assert(rest[i] == entries[i + 1]);
                assert(rest[j] == entries[j + 1]);
            }
        }
        lemma_insert_pos(rest, score);
        if entries[0].score >= score {
            assert forall|i: int| 0 <= i < insert_pos(entries, score) implies (#[trigger] entries[i]).score
                >= score by {
                if i > 0 {
                    assert(entries[i] == rest[i - 1]);
                }
            }
            assert forall|i: int|
                insert_pos(entries, score) <= i < entries.len() implies (#[trigger] entries[i]).score
                < score by {
                assert(entries[i] == rest[i - 1]);
            }
        }
    }
}

/// A bounded, stably ordered collection of the best turns seen.
#[derive(Debug)]
pub struct TopMoves {
    entries: Vec<ScoredMove>,
    cap: usize,
}

impl TopMoves {
    /// The retained entries, best first.
    pub closed spec fn view_entries(&self) -> Seq<ScoredMove> {
        self.entries@
    }

    /// The bound the collection was created with.
    pub closed spec fn spec_cap(&self) -> int {
        self.cap as int
    }

    /// Sorted, and never over the bound.
    pub open spec fn wf(&self) -> bool {
        sorted_desc(self.view_entries()) && self.view_entries().len() <= self.spec_cap()
    }

    /// An empty collection that will retain the best `cap` entries.
    pub fn new(cap: usize) -> (r: TopMoves)
        ensures
            r.wf(),
            r.view_entries().len() == 0,
            r.spec_cap() == cap as int,
    {
        TopMoves { entries: Vec::new(), cap }
    }

    /// The retained entries, best first.
    pub fn into_entries(self) -> (r: Vec<ScoredMove>)
        ensures
            r@ == self.view_entries(),
    {
        self.entries
    }

    /// Files `m` behind every entry scoring at least as much, then drops
    /// whatever fell past the bound (see [`spec_topk_insert`]).
    #[verifier::loop_isolation(false)]
    pub fn insert(&mut self, m: ScoredMove)
        requires
            old(self).wf(),
        ensures
            final(self).wf(),
            final(self).view_entries() == spec_topk_insert(
                old(self).view_entries(),
                m,
                old(self).spec_cap(),
            ),
            final(self).spec_cap() == old(self).spec_cap(),
            final(self).view_entries().len() == (if old(self).view_entries().len() + 1
                > old(self).spec_cap() {
                old(self).spec_cap()
            } else {
                old(self).view_entries().len() + 1 as int
            }),
    {
        proof {
            lemma_insert_pos(self.entries@, m.score as int);
        }
        let mut pos: usize = 0;
        while pos < self.entries.len() && self.entries[pos].score >= m.score
            invariant
                pos <= self.entries@.len(),
                forall|i: int| 0 <= i < pos ==> (#[trigger] self.entries@[i]).score >= m.score,
            decreases self.entries@.len() - pos,
        {
            pos += 1;
        }
        proof {
            assert(pos as int == insert_pos(self.entries@, m.score as int)) by {
                let p = insert_pos(self.entries@, m.score as int);
                if pos < self.entries@.len() {
                    assert(self.entries@[pos as int].score < m.score);
                }
                if p < pos {
                    assert(self.entries@[p].score >= m.score);
                }
                if pos < p {
                    assert(self.entries@[pos as int].score >= m.score);
                }
            }
        }
        self.entries.insert(pos, m);
        if self.entries.len() > self.cap {
            self.entries.truncate(self.cap);
        }
        proof {
            let oldv = old(self).view_entries();
            let full = oldv.insert(insert_pos(oldv, m.score as int), m);
            assert(self.entries@ =~= spec_topk_insert(oldv, m, old(self).spec_cap()));
            assert(sorted_desc(self.entries@)) by {
                lemma_insert_pos(oldv, m.score as int);
                assert forall|i: int, j: int|
                    0 <= i < j < self.entries@.len() implies (#[trigger] self.entries@[i]).score
                    >= (#[trigger] self.entries@[j]).score by {
                    let p = insert_pos(oldv, m.score as int);
                    assert(self.entries@[i] == full[i]);
                    assert(self.entries@[j] == full[j]);
                }
            }
        }
    }
}

/// Every retained entry is the inserted one or one already retained.
pub proof fn lemma_topk_insert_elems(entries: Seq<ScoredMove>, m: ScoredMove, cap: int)
    requires
        0 <= cap,
        0 <= insert_pos(entries, m.score as int) <= entries.len(),
    ensures
        forall|k: int|
            0 <= k < spec_topk_insert(entries, m, cap).len() ==> (#[trigger] spec_topk_insert(
                entries,
                m,
                cap,
            )[k]) == m || entries.contains(spec_topk_insert(entries, m, cap)[k]),
{
    let pos = insert_pos(entries, m.score as int);
    let full = entries.insert(pos, m);
    let kept = spec_topk_insert(entries, m, cap);
    assert forall|k: int| 0 <= k < kept.len() implies (#[trigger] kept[k]) == m
        || entries.contains(kept[k]) by {
        assert(kept[k] == full[k]);
        if k < pos {
            assert(full[k] == entries.subrange(0, pos).push(m)[k]);
            assert(full[k] == entries[k]);
        } else if k > pos {
            assert(full[k] == entries.subrange(pos, entries.len() as int)[k - pos - 1]);
            assert(full[k] == entries[k - 1]);
        } else {
            assert(full[k] == entries.subrange(0, pos).push(m)[pos]);
            assert(full[k] == m);
        }
    }
}

/// The number of (piece move, duck placement) pairs the root explores
/// for the first `n` generated moves: one per reasonable duck square of
/// each board after a piece move.
pub open spec fn combos_upto(bv: BoardV, moves: Seq<PieceMove>, n: int) -> int
    decreases n,
{
    if n <= 0 {
        0
    } else {
        combos_upto(bv, moves, n - 1) + reasonable_squares(
            spec_apply_piece_move(bv, moves[n - 1]),
        ).len()
    }
}

/// How many (piece move, duck placement) pairs a search from `bv`
/// enumerates at its root, before any ranking.
pub open spec fn root_combos(bv: BoardV) -> int {
    combos_upto(bv, all_piece_moves(bv), all_piece_moves(bv).len() as int)
}

proof fn lemma_combos_bound(bv: BoardV, moves: Seq<PieceMove>, n: int)
    requires
        0 <= n,
    ensures
        0 <= combos_upto(bv, moves, n) <= 64 * n,
    decreases n,
{
    if n > 0 {
        lemma_combos_bound(bv, moves, n - 1);
        crate::movegen::lemma_reasonable_len(spec_apply_piece_move(bv, moves[n - 1]), 64);
    }
}

/// The result of one search: the retained best turns, best first, and
/// how many turn pairs the root enumerated before ranking.
#[derive(Debug)]
pub struct SearchResult {
    pub moves: Vec<ScoredMove>,
    pub considered: usize,
}

/// One ranked entry is sound for the board searched from: its piece
/// move is generated, its side is the side to move, and its duck square
/// is among the pruned placements after that piece move.
pub open spec fn entry_sound(bv: BoardV, sm: ScoredMove) -> bool {
    &&& all_piece_moves(bv).contains(sm.mov.piece)
    &&& sm.mov.side == bv.next_move
    &&& reasonable_squares(spec_apply_piece_move(bv, sm.mov.piece)).contains(sm.mov.duck)
    &&& -MAX_SCORE <= sm.score <= MAX_SCORE
}

/// A leaf entry carries the exact material balance of the board its
/// whole turn leads to, seen from the side that played it.
pub open spec fn entry_scored(bv: BoardV, ds: Option<Square>, sm: ScoredMove) -> bool {
    sm.score == eval_spec(spec_apply_full_move(bv, ds, sm.mov), bv.next_move)
}

/// Negamax with an alpha–beta window over one node whose piece move is
/// outstanding; the returned score is from the point of view of that
/// node's side to move.
#[verifier::loop_isolation(false)]
fn search_rec(board: &ComputedBoard, depth: u8, alpha_init: i64, beta: i64) -> (r: i64)
    requires
        board.turn_ready(),
        depth >= 1,
        -MAX_SCORE <= alpha_init <= MAX_SCORE,
        -MAX_SCORE <= beta <= MAX_SCORE,
    ensures
        -MAX_SCORE <= r <= MAX_SCORE,
    decreases depth,
{
    let mover = board.next_move_side();
    let mut moves: Vec<PieceMove> = Vec::new();
    board.available_piece_moves(&mut moves);
    let mut best: i64 = -MAX_SCORE;
    let mut alpha = alpha_init;
    let mut cut = false;
    let mut i: usize = 0;
    while i < moves.len() && !cut
        invariant
            i <= moves@.len(),
            -MAX_SCORE <= best <= MAX_SCORE,
            -MAX_SCORE <= alpha <= MAX_SCORE,
        decreases moves@.len() - i,
    {
        let pm = moves[i];
        proof {
            assert(all_piece_moves(board.bv()).contains(pm));
            lemma_generated_applicable(board.bv(), pm);
        }
        let mut after_piece = board.duplicate();
        after_piece.apply_piece_move(pm);
        let mut ducks: Vec<Square> = Vec::new();
        after_piece.board().reasonable_duck_squares(&mut ducks);
        let mut j: usize = 0;
        while j < ducks.len() && !cut
            invariant
                j <= ducks@.len(),
                -MAX_SCORE <= best <= MAX_SCORE,
                -MAX_SCORE <= alpha <= MAX_SCORE,
            decreases ducks@.len() - j,
        {
            let duck = ducks[j];
            proof {
                assert(reasonable_squares(after_piece.bv()).contains(duck));
                lemma_reasonable_subset_of_available(after_piece.bv(), duck);
            }
            let mut child = board.duplicate();
            child.apply_move(pm, duck);
            let val: i64 = if depth == 1 {
                evaluate_board(child.board(), mover)
            } else {
                let neg = search_rec(&child, depth - 1, -beta, -alpha);
                -neg
            };
            if val > best {
                best = val;
            }
            if best > alpha {
                alpha = best;
            }
            if alpha >= beta {
                cut = true;
            }
            j += 1;
        }
        i += 1;
    }
    best
}

/// Searches `depth` plies deep and returns the `cap` best whole turns
/// for the side to move, best first, plus the number of (piece move,
/// duck placement) pairs enumerated at the root.  The root enumerates
/// every pair — pruning only trims deeper plies — so `considered` is
/// exactly [`root_combos`].
#[verifier::loop_isolation(false)]
#[verifier::rlimit(60)]
pub fn search_moves(board: &ComputedBoard, depth: u8, cap: usize) -> (r: SearchResult)
    requires
        board.turn_ready(),
        depth >= 1,
    ensures
        r.considered == root_combos(board.bv()),
        sorted_desc(r.moves@),
        r.moves@.len() == (if root_combos(board.bv()) > cap as int {
            cap as int
        } else {
            root_combos(board.bv())
        }),
        forall|k: int| 0 <= k < r.moves@.len() ==> entry_sound(board.bv(), #[trigger] r.moves@[k]),
        depth == 1 ==> forall|k: int|
            0 <= k < r.moves@.len() ==> entry_scored(
                board.bv(),
                board.duck_sq(),
                #[trigger] r.moves@[k],
            ),
{
    let ghost bv = board.bv();
    let ghost ds = board.duck_sq();
    let mover = board.next_move_side();
    let mut moves: Vec<PieceMove> = Vec::new();
    board.available_piece_moves(&mut moves);
    proof {
        crate::movegen::lemma_moves_upto_len(bv, 64);
    }
    let mut top = TopMoves::new(cap);
    let mut considered: usize = 0;
    let mut alpha: i64 = -MAX_SCORE;
    let mut i: usize = 0;
    while i < moves.len()
        invariant
            i <= moves@.len(),
            considered == combos_upto(bv, moves@, i as int),
            considered <= 64 * i,
            -MAX_SCORE <= alpha <= MAX_SCORE,
            top.wf(),
            top.spec_cap() == cap as int,
            top.view_entries().len() == (if considered > cap as int {
                cap as int
            } else {
                considered as int
            }),
            forall|k: int|
                0 <= k < top.view_entries().len() ==> entry_sound(
                    bv,
                    #[trigger] top.view_entries()[k],
                ),
            depth == 1 ==> forall|k: int|
                0 <= k < top.view_entries().len() ==> entry_scored(
                    bv,
                    ds,
                    #[trigger] top.view_entries()[k],
                ),
        decreases moves@.len() - i,
    {
        let pm = moves[i];
        proof {
            assert(all_piece_moves(bv).contains(pm));
            lemma_generated_applicable(bv, pm);
            lemma_combos_bound(bv, moves@, moves@.len() as int);
        }
        let mut after_piece = board.duplicate();
        after_piece.apply_piece_move(pm);
        let mut ducks: Vec<Square> = Vec::new();
        after_piece.board().reasonable_duck_squares(&mut ducks);
        proof {
            crate::movegen::lemma_reasonable_len(after_piece.bv(), 64);
        }
        let mut j: usize = 0;
        while j < ducks.len()
            invariant
                j <= ducks@.len(),
                considered == combos_upto(bv, moves@, i as int) + j,
                considered <= 64 * i + j,
                -MAX_SCORE <= alpha <= MAX_SCORE,
                top.wf(),
                top.spec_cap() == cap as int,
                top.view_entries().len() == (if considered > cap as int {
                    cap as int
                } else {
                    considered as int
                }),
                forall|k: int|
                    0 <= k < top.view_entries().len() ==> entry_sound(
                        bv,
                        #[trigger] top.view_entries()[k],
                    ),
                depth == 1 ==> forall|k: int|
                    0 <= k < top.view_entries().len() ==> entry_scored(
                        bv,
                        ds,
                        #[trigger] top.view_entries()[k],
                    ),
            decreases ducks@.len() - j,
        {
            let duck = ducks[j];
            proof {
                assert(reasonable_squares(after_piece.bv()).contains(duck));
                lemma_reasonable_subset_of_available(after_piece.bv(), duck);
            }
            let mut child = board.duplicate();
            child.apply_move(pm, duck);
            let val: i64 = if depth == 1 {
                evaluate_board(child.board(), mover)
            } else {
                let neg = search_rec(&child, depth - 1, -MAX_SCORE, -alpha);
                -neg
            };
            let entry = ScoredMove { score: val, mov: Move { piece: pm, duck, side: mover } };
            let ghost oldtop = top.view_entries();
            proof {
                lemma_insert_pos(oldtop, entry.score as int);
            }
            top.insert(entry);
            proof {
                lemma_topk_insert_elems(oldtop, entry, cap as int);
                assert(entry_sound(bv, entry));
                if depth == 1 {
                    lemma_apply_move_composes(bv, ds, entry.mov);
                    assert(entry_scored(bv, ds, entry));
                }
                assert forall|k: int| 0 <= k < top.view_entries().len() implies entry_sound(
                    bv,
                    #[trigger] top.view_entries()[k],
                ) && (depth == 1 ==> entry_scored(bv, ds, top.view_entries()[k])) by {
                    if top.view_entries()[k] != entry {
                        let e = top.view_entries()[k];
                        assert(oldtop.contains(e));
                    }
                }
            }
            if val > alpha {
                alpha = val;
            }
            considered += 1;
            j += 1;
        }
        proof {
            assert(combos_upto(bv, moves@, i as int + 1) == combos_upto(bv, moves@, i as int)
                + reasonable_squares(spec_apply_piece_move(bv, pm)).len());
        }
        i += 1;
    }
    SearchResult { moves: top.into_entries(), considered }
}

} // verus!
