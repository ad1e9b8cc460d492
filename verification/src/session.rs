//! The session core: one game's authoritative state, and the decision
//! that turns a move submission into a response.
//!
//! The surrounding actor (channels, broadcasts) is not here; it owns one
//! [`Inner`] and feeds it submissions strictly one at a time, which makes
//! the staleness check race-free.  Everything the actor decides is
//! decided here, and [`spec_make_move`] says exactly how.

use vstd::prelude::*;

use crate::logic::ComputedBoard;
use crate::movegen::{all_piece_moves, duck_squares, lemma_generated_applicable};
use crate::square::Square;
use crate::types::{
    spec_apply_duck_move, spec_apply_piece_move, start_board, Board, BoardV, Move, PieceMove,
};

verus! {

/// One accepted turn: who moved, under which display name, what was
/// played, and when.
#[derive(Debug, Clone)]
pub struct HistoryMove {
    pub con_id: u64,
    pub name: String,
    pub mov: Move,
    pub time: u64,
}

/// The model of a history record.
pub ghost struct HistoryMoveV {
    pub con_id: u64,
    pub name: Seq<char>,
    pub mov: Move,
    pub time: u64,
}

impl View for HistoryMove {
    type V = HistoryMoveV;

    open spec fn view(&self) -> HistoryMoveV {
        HistoryMoveV { con_id: self.con_id, name: self.name@, mov: self.mov, time: self.time }
    }
}

impl HistoryMove {
    /// A copy with the same model.
    pub fn duplicate(&self) -> (r: HistoryMove)
        ensures
            r@ == self@,
    {
        HistoryMove {
            con_id: self.con_id,
            name: self.name.clone(),
            mov: self.mov,
            time: self.time,
        }
    }
}

/// The accepted turns of one game, oldest first; its length is the turn
/// counter that submissions are checked against.
#[derive(Debug, Clone)]
pub struct History {
    pub moves: Vec<HistoryMove>,
}

impl View for History {
    type V = Seq<HistoryMoveV>;

    open spec fn view(&self) -> Seq<HistoryMoveV> {
        Seq::new(self.moves@.len(), |i: int| self.moves@[i]@)
    }
}

impl History {
    /// A copy with the same model.
    pub fn duplicate(&self) -> (r: History)
        ensures
            r@ == self@,
    {
        let mut moves: Vec<HistoryMove> = Vec::new();
        let mut i: usize = 0;
        while i < self.moves.len()
            invariant
                i <= self.moves@.len(),
                moves@.len() == i,
                forall|j: int| 0 <= j < i ==> moves@[j]@ == self.moves@[j]@,
            decreases self.moves@.len() - i,
        {
            moves.push(self.moves[i].duplicate());
            i += 1;
        }
        let r = History { moves };
        proof {
            assert(r@ =~= self@);
        }
        r
    }
}

/// The answer to one submission.
#[derive(Debug)]
pub enum MakeMoveResp {
    /// The move was accepted: the new board and the appended record.
    Accepted { board: Board, history: HistoryMove },
    /// The same participant already made the previous accepted move.
    AlreadyMoved,
    /// Another move landed first; `name` names who made it.
    ToSlow { name: String },
    /// The move is not available on the current board.
    WrongMove,
}

/// The model of a response.
pub ghost enum RespV {
    Accepted { board: BoardV, entry: HistoryMoveV },
    AlreadyMoved,
    ToSlow { name: Seq<char> },
    WrongMove,
}

/// Whether the executable response carries exactly the model `rv`.
pub open spec fn resp_matches(r: MakeMoveResp, rv: RespV) -> bool {
    match (r, rv) {
        (MakeMoveResp::Accepted { board, history }, RespV::Accepted { board: bv, entry }) => board@ == bv
            && history@ == entry,
        (MakeMoveResp::AlreadyMoved, RespV::AlreadyMoved) => true,
        (MakeMoveResp::ToSlow { name }, RespV::ToSlow { name: nv }) => name@ == nv,
        (MakeMoveResp::WrongMove, RespV::WrongMove) => true,
        _ => false,
    }
}

/// A read-only snapshot: the current board and the full history.
#[derive(Debug, Clone)]
pub struct State {
    pub board: Board,
    pub history: History,
}

/// The model of a session: board, cached duck location, history.
pub ghost struct SessionV {
    pub board: BoardV,
    pub duck: Option<Square>,
    pub history: Seq<HistoryMoveV>,
}

/// What one submission does to a session, and what it answers:
/// a wrong claimed turn index is stale; a repeat of the last submitter
/// is a double submit; a piece move not among the generated moves, or a
/// duck square not among the empty squares after the piece move, is a
/// wrong move; otherwise both halves are applied, the record is
/// appended, and the new board is returned.  Only the last case changes
/// the session.
pub open spec fn spec_make_move(
    s: SessionV,
    id: u64,
    name: Seq<char>,
    mov_num: u16,
    mov: Move,
    time: u64,
) -> (SessionV, RespV) {
    if s.history.len() != mov_num as int {
        let last_name = if s.history.len() > 0 {
            s.history.last().name
        } else {
            Seq::empty()
        };
        (s, RespV::ToSlow { name: last_name })
    } else if s.history.len() > 0 && s.history.last().con_id == id {
        (s, RespV::AlreadyMoved)
    } else if !all_piece_moves(s.board).contains(mov.piece) {
        (s, RespV::WrongMove)
    } else {
        let after_piece = spec_apply_piece_move(s.board, mov.piece);
        if !duck_squares(after_piece).contains(mov.duck) {
            (s, RespV::WrongMove)
        } else {
            let after = spec_apply_duck_move(after_piece, mov.duck, s.duck);
            let entry = HistoryMoveV { con_id: id, name, mov, time };
            (
                SessionV { board: after, duck: Some(mov.duck), history: s.history.push(entry) },
                RespV::Accepted { board: after, entry },
            )
        }
    }
}

/// The authoritative state of one game.  The owning task processes one
/// submission at a time, so every check here is race-free.
#[derive(Debug)]
pub struct Inner {
    pub board: ComputedBoard,
    pub history: History,
}

impl Inner {
    /// The model of the session.
    pub open spec fn sv(&self) -> SessionV {
        SessionV { board: self.board.bv(), duck: self.board.duck_sq(), history: self.history@ }
    }

    /// Between turns the session is well formed: its board is ready for
    /// the next turn.
    pub open spec fn wf(&self) -> bool {
        self.board.turn_ready()
    }

    /// A fresh game: start position, empty history.
    pub fn new() -> (r: Inner)
        ensures
            r.wf(),
            r.sv().board == start_board(),
            r.sv().history.len() == 0,
    {
        let r = Inner { board: ComputedBoard::new(), history: History { moves: Vec::new() } };
        proof {
            assert(r.sv().history =~= Seq::<HistoryMoveV>::empty());
        }
        r
    }

    /// A snapshot of the current board and history.
    pub fn current_state(&self) -> (r: State)
        ensures
            r.board@ == self.sv().board,
            r.history@ == self.sv().history,
    {
        State { board: self.board.board().duplicate(), history: self.history.duplicate() }
    }

    /// Decides one submission exactly as [`spec_make_move`] says, and
    /// keeps the session well formed.
    pub fn make_move(&mut self, id: u64, name: String, mov_num: u16, mov: Move, time: u64) -> (r:
        MakeMoveResp)
        requires
            old(self).wf(),
        ensures
            final(self).wf(),
            final(self).sv() == spec_make_move(old(self).sv(), id, name@, mov_num, mov, time).0,
            resp_matches(r, spec_make_move(old(self).sv(), id, name@, mov_num, mov, time).1),
    {
        let len = self.history.moves.len();
        if len != mov_num as usize {
            let last_name = if len > 0 {
                self.history.moves[len - 1].name.clone()
            } else {
                String::new()
            };
            return MakeMoveResp::ToSlow { name: last_name };
        }
        if len > 0 && self.history.moves[len - 1].con_id == id {
            return MakeMoveResp::AlreadyMoved;
        }

        let mut piece_moves: Vec<PieceMove> = Vec::new();
        self.board.available_piece_moves(&mut piece_moves);
        if !contains_piece_move(&piece_moves, &mov.piece) {
            return MakeMoveResp::WrongMove;
        }

        // the duck half may still be invalid, so validate it on a copy
        let mut board = self.board.duplicate();
        proof {
            lemma_generated_applicable(board.bv(), mov.piece);
        }
        board.apply_piece_move(mov.piece);

        let mut duck_list: Vec<Square> = Vec::new();
        board.available_duck_squares(&mut duck_list);
        if !contains_square(&duck_list, &mov.duck) {
            return MakeMoveResp::WrongMove;
        }

        // both halves are valid: commit the whole turn
        let mut committed = self.board.duplicate();
        committed.apply_move(mov.piece, mov.duck);
        self.board = committed;

        let hist_move = HistoryMove { con_id: id, name, mov, time };
        let resp = MakeMoveResp::Accepted {
            board: self.board.board().duplicate(),
            history: hist_move.duplicate(),
        };
        self.history.moves.push(hist_move);
        proof {
            assert(self.sv().history =~= old(self).sv().history.push(
                HistoryMoveV { con_id: id, name: name@, mov, time },
            ));
        }
        resp
    }
}

/// Whether `list` holds `m`, by structural equality.
fn contains_piece_move(list: &Vec<PieceMove>, m: &PieceMove) -> (r: bool)
    ensures
        r == list@.contains(*m),
{
    let mut i: usize = 0;
    while i < list.len()
        invariant
            i <= list@.len(),
            forall|j: int| 0 <= j < i ==> list@[j] != *m,
        decreases list@.len() - i,
    {
        if list[i] == *m {
            return true;
        }
        i += 1;
    }
    false
}

/// Whether `list` holds `s`, by structural equality.
fn contains_square(list: &Vec<Square>, s: &Square) -> (r: bool)
    ensures
        r == list@.contains(*s),
{
    let mut i: usize = 0;
    while i < list.len()
        invariant
            i <= list@.len(),
            forall|j: int| 0 <= j < i ==> list@[j] != *s,
        decreases list@.len() - i,
    {
        if list[i] == *s {
            return true;
        }
        i += 1;
    }
    false
}

/// A submission whose claimed turn index is not the history length is
/// answered stale (`ToSlow`), whatever the move, and changes nothing.
pub proof fn lemma_stale_always_rejected(
    s: SessionV,
    id: u64,
    name: Seq<char>,
    mov_num: u16,
    mov: Move,
    time: u64,
)
    requires
        s.history.len() != mov_num as int,
    ensures
        spec_make_move(s, id, name, mov_num, mov, time).0 == s,
        spec_make_move(s, id, name, mov_num, mov, time).1 is ToSlow,
{
}

/// After an accepted move, an immediate second submission with the same
/// id — claiming the updated turn index, with no other move in between —
/// is answered `AlreadyMoved` and changes nothing.
pub proof fn lemma_double_submit_rejected(
    s: SessionV,
    id: u64,
    name: Seq<char>,
    mov_num: u16,
    mov: Move,
    time: u64,
    name2: Seq<char>,
    mov_num2: u16,
    mov2: Move,
    time2: u64,
)
    requires
        spec_make_move(s, id, name, mov_num, mov, time).1 is Accepted,
        mov_num2 as int == spec_make_move(s, id, name, mov_num, mov, time).0.history.len(),
    ensures
        ({
            let s2 = spec_make_move(s, id, name, mov_num, mov, time).0;
            spec_make_move(s2, id, name2, mov_num2, mov2, time2) == (s2, RespV::AlreadyMoved)
        }),
{
    let s2 = spec_make_move(s, id, name, mov_num, mov, time).0;
    let entry = HistoryMoveV { con_id: id, name, mov, time };
    assert(s2.history.last() == entry);
}

} // verus!
