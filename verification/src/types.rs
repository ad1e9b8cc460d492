//! Pieces, sides, moves and the board itself, with its two apply
//! operations.
//!
//! The spec-level model of a [`Board`] is a [`BoardV`]: a sequence of 64
//! optional pieces plus the castling rights, the en-passant target, the
//! side to move and the phase flag.  `moved_piece == false` means a piece
//! move is expected next; `true` means the duck placement of the current
//! turn is still outstanding.

use vstd::prelude::*;

use crate::square::{Direction, Square};

verus! {

/// The kind of a piece; `Duck` is the neutral blocker.
#[derive(Debug, Clone, Copy, PartialEq, Eq, Hash, Structural)]
pub enum PieceKind {
    Rook,
    Knight,
    Bishop,
    King,
    Queen,
    Pawn,
    Duck,
}

/// One of the two players.
#[derive(Debug, Clone, Copy, PartialEq, Eq, Hash, Structural)]
pub enum Side {
    White,
    Black,
}

/// A piece on the board.  The duck's `side` records only who placed it
/// last; it never makes the duck capturable.
#[derive(Debug, Clone, Copy, PartialEq, Eq, Hash, Structural)]
pub struct Piece {
    pub kind: PieceKind,
    pub side: Side,
}

/// Castling rights, one `(long, short)` pair per side.
#[derive(Debug, Clone, Copy, PartialEq, Eq)]
pub struct CanCastle {
    pub white: (bool, bool),
    pub black: (bool, bool),
}

/// The piece-move half of a turn.
#[derive(Debug, Clone, Copy, PartialEq, Eq, Hash, Structural)]
pub enum PieceMove {
    Piece {
        piece: PieceKind,
        from: Square,
        to: Square,
        capture: Option<PieceKind>,
        promotion: Option<PieceKind>,
    },
    EnPassant {
        from: Square,
        to: Square,
    },
    Castle {
        from_king: Square,
        to_king: Square,
        from_rook: Square,
        to_rook: Square,
    },
}

/// A full turn: the piece move and the following duck placement.
#[derive(Debug, Clone, Copy, PartialEq, Eq, Hash, Structural)]
pub struct Move {
    pub piece: PieceMove,
    pub duck: Square,
    pub side: Side,
}

/// Full game state.
#[derive(Debug, Clone)]
pub struct Board {
    /// One slot per square, rank-major from the top left; always 64 slots.
    pub board: Vec<Option<Piece>>,
    pub can_castle: CanCastle,
    /// Set right after a pawn double push, to that pawn's destination.
    pub en_passant: Option<Square>,
    pub next_move: Side,
    /// `true` while the duck placement of the current turn is outstanding.
    pub moved_piece: bool,
}

/// The mathematical model of a [`Board`].
#[verifier::ext_equal]
pub ghost struct BoardV {
    pub cells: Seq<Option<Piece>>,
    pub can_castle: CanCastle,
    pub en_passant: Option<Square>,
    pub next_move: Side,
    pub moved_piece: bool,
}

impl View for Board {
    type V = BoardV;

    open spec fn view(&self) -> BoardV {
        BoardV {
            cells: self.board@,
            can_castle: self.can_castle,
            en_passant: self.en_passant,
            next_move: self.next_move,
            moved_piece: self.moved_piece,
        }
    }
}

impl BoardV {
    /// A board always has exactly 64 cells.
    pub open spec fn wf(self) -> bool {
        self.cells.len() == 64
    }

    /// The cell under a square.
    pub open spec fn at(self, s: Square) -> Option<Piece> {
        self.cells[s.idx()]
    }

    /// No duck of the side to move is on the board.  This holds of every
    /// state in which a piece move is expected: the duck placed by the
    /// previous turn carries the previous mover's side.
    pub open spec fn no_own_duck(self) -> bool {
        forall|i: int|
            0 <= i < 64 ==> match #[trigger] self.cells[i] {
                Some(p) => p.kind == PieceKind::Duck ==> p.side != self.next_move,
                None => true,
            }
    }

    /// The `(long, short)` castling rights of `side`.
    pub open spec fn rights_of(self, side: Side) -> (bool, bool) {
        match side {
            Side::White => self.can_castle.white,
            Side::Black => self.can_castle.black,
        }
    }
}

impl Side {
    /// The opposing side.
    pub open spec fn spec_other(&self) -> Side {
        match self {
            Side::White => Side::Black,
            Side::Black => Side::White,
        }
    }

    /// The opposing side.
    #[verifier::when_used_as_spec(spec_other)]
    pub fn other(&self) -> (r: Side)
        ensures
            r == self.spec_other(),
    {
        match self {
            Side::White => Side::Black,
            Side::Black => Side::White,
        }
    }
}

impl PieceKind {
    /// Whether this is the duck.
    pub open spec fn spec_is_duck(&self) -> bool {
        *self == PieceKind::Duck
    }

    /// Whether this is the duck.
    #[verifier::when_used_as_spec(spec_is_duck)]
    pub fn is_duck(&self) -> (r: bool)
        ensures
            r == self.spec_is_duck(),
    {
        match self {
            PieceKind::Duck => true,
            _ => false,
        }
    }

    /// The ray directions of this kind; empty for a kind that does not
    /// move along directions.
    pub open spec fn spec_directions(self) -> Seq<Direction> {
        match self {
            PieceKind::Rook => seq![
                Direction::Up,
                Direction::Right,
                Direction::Down,
                Direction::Left,
            ],
            PieceKind::Bishop => seq![
                Direction::UpRight,
                Direction::DownRight,
                Direction::DownLeft,
                Direction::UpLeft,
            ],
            PieceKind::King | PieceKind::Queen => seq![
                Direction::Up,
                Direction::UpRight,
                Direction::Right,
                Direction::DownRight,
                Direction::Down,
                Direction::DownLeft,
                Direction::Left,
                Direction::UpLeft,
            ],
            PieceKind::Knight | PieceKind::Pawn | PieceKind::Duck => Seq::empty(),
        }
    }

    /// The ray directions of this kind, as a list.
    pub fn directions(&self) -> (r: Vec<Direction>)
        ensures
            r@ == self.spec_directions(),
    {
        let mut r: Vec<Direction> = Vec::new();
        match self {
            PieceKind::Rook => {
                r.push(Direction::Up);
                r.push(Direction::Right);
                r.push(Direction::Down);
                r.push(Direction::Left);
            }
            PieceKind::Bishop => {
                r.push(Direction::UpRight);
                r.push(Direction::DownRight);
                r.push(Direction::DownLeft);
                r.push(Direction::UpLeft);
            }
            PieceKind::King | PieceKind::Queen => {
                r.push(Direction::Up);
                r.push(Direction::UpRight);
                r.push(Direction::Right);
                r.push(Direction::DownRight);
                r.push(Direction::Down);
                r.push(Direction::DownLeft);
                r.push(Direction::Left);
                r.push(Direction::UpLeft);
            }
            PieceKind::Knight | PieceKind::Pawn | PieceKind::Duck => {}
        }
        proof {
            assert(r@ =~= self.spec_directions());
        }
        r
    }
}

/// The eight knight jumps, in generation order.
pub open spec fn knight_directions() -> Seq<Direction> {
    seq![
        Direction::KnUpRight,
        Direction::KnRightUp,
        Direction::KnRightDown,
        Direction::KnDownRight,
        Direction::KnDownLeft,
        Direction::KnLeftDown,
        Direction::KnLeftUp,
        Direction::KnUpLeft,
    ]
}

/// Whether `piece` can be captured by a piece of `side`: it must belong
/// to the other side and must not be the duck.
pub open spec fn spec_can_eat(piece: Piece, side: Side) -> bool {
    !piece.kind.spec_is_duck() && piece.side != side
}

/// Whether the cell with index `i` holds the duck.
pub open spec fn duck_at(bv: BoardV, i: int) -> bool {
    match bv.cells[i] {
        Some(p) => p.kind.spec_is_duck(),
        None => false,
    }
}

/// The en-passant target, when set, does not hold the duck.  It always
/// holds the just-pushed pawn in any state reached by play.
pub open spec fn ep_not_duck(bv: BoardV) -> bool {
    match bv.en_passant {
        Some(e) => !duck_at(bv, e.idx()),
        None => true,
    }
}

/// The back-rank kind in file `x` of the start position.
pub open spec fn spec_back_rank(x: int) -> PieceKind {
    if x == 0 || x == 7 {
        PieceKind::Rook
    } else if x == 1 || x == 6 {
        PieceKind::Knight
    } else if x == 2 || x == 5 {
        PieceKind::Bishop
    } else if x == 3 {
        PieceKind::Queen
    } else {
        PieceKind::King
    }
}

/// The cell with index `i` of the start position.
pub open spec fn spec_start_cell(i: int) -> Option<Piece> {
    let x = i % 8;
    let y = i / 8;
    if y == 0 {
        Some(Piece { kind: spec_back_rank(x), side: Side::Black })
    } else if y == 1 {
        Some(Piece { kind: PieceKind::Pawn, side: Side::Black })
    } else if y == 6 {
        Some(Piece { kind: PieceKind::Pawn, side: Side::White })
    } else if y == 7 {
        Some(Piece { kind: spec_back_rank(x), side: Side::White })
    } else {
        None
    }
}

/// The model of the standard start position: white to move, all rights,
/// no en-passant target, no duck yet.
pub open spec fn start_board() -> BoardV {
    BoardV {
        cells: Seq::new(64, |i: int| spec_start_cell(i)),
        can_castle: CanCastle { white: (true, true), black: (true, true) },
        en_passant: None,
        next_move: Side::White,
        moved_piece: false,
    }
}

/// The castling rights after setting the `long` or short right of `side`
/// to `val`.
pub open spec fn rights_after_set(cc: CanCastle, side: Side, val: bool, long: bool) -> CanCastle {
    match side {
        Side::White => if long {
            CanCastle { white: (val, cc.white.1), black: cc.black }
        } else {
            CanCastle { white: (cc.white.0, val), black: cc.black }
        },
        Side::Black => if long {
            CanCastle { white: cc.white, black: (val, cc.black.1) }
        } else {
            CanCastle { white: cc.white, black: (cc.black.0, val) }
        },
    }
}

/// The castling rights after the side to move plays `mv`: a rook move
/// from file 0 revokes the long right, from file 7 the short right; a
/// king move or a castle revokes both.
pub open spec fn rights_after_piece_move(bv: BoardV, mv: PieceMove) -> CanCastle {
    match mv {
        PieceMove::Piece { piece, from, .. } => {
            if piece == PieceKind::Rook && from.idx() % 8 == 0 {
                rights_after_set(bv.can_castle, bv.next_move, false, true)
            } else if piece == PieceKind::Rook && from.idx() % 8 == 7 {
                rights_after_set(bv.can_castle, bv.next_move, false, false)
            } else if piece == PieceKind::King {
                rights_after_set(
                    rights_after_set(bv.can_castle, bv.next_move, false, true),
                    bv.next_move,
                    false,
                    false,
                )
            } else {
                bv.can_castle
            }
        },
        PieceMove::EnPassant { .. } => bv.can_castle,
        PieceMove::Castle { .. } => rights_after_set(
            rights_after_set(bv.can_castle, bv.next_move, false, true),
            bv.next_move,
            false,
            false,
        ),
    }
}

/// Whether `mv` is a pawn double push, which leaves an en-passant target.
pub open spec fn is_double_push(mv: PieceMove) -> bool {
    match mv {
        PieceMove::Piece { piece, from, to, .. } => {
            let dy = from.idx() / 8 - to.idx() / 8;
            piece == PieceKind::Pawn && from.idx() % 8 == to.idx() % 8 && (dy == 2 || dy == -2)
        },
        _ => false,
    }
}

/// What [`Board::apply_piece_move`] needs of the board so that every
/// piece it reads is present: the moved piece must stand on its origin
/// (except for a promotion, which rebuilds the piece), an en-passant
/// capture needs a target and the capturing pawn, a castle needs both the
/// king and the rook.
pub open spec fn piece_move_applicable(bv: BoardV, mv: PieceMove) -> bool {
    match mv {
        PieceMove::Piece { from, promotion, .. } => {
            promotion is Some || bv.at(from) is Some
        },
        PieceMove::EnPassant { from, .. } => {
            &&& bv.en_passant is Some
            &&& bv.cells.update(bv.en_passant.unwrap().idx(), None)[from.idx()] is Some
        },
        PieceMove::Castle { from_king, from_rook, .. } => {
            bv.at(from_king) is Some && bv.at(from_rook) is Some
        },
    }
}

/// The en-passant target a piece move leaves behind: the destination of
/// a pawn double push, nothing otherwise.
pub open spec fn double_push_target(mv: PieceMove) -> Option<Square> {
    if is_double_push(mv) {
        match mv {
            PieceMove::Piece { to, .. } => Some(to),
            _ => None,
        }
    } else {
        None
    }
}

/// The cells after the piece-move half `mv`: the moved piece (or the
/// promoted piece) lands on its destination, its origin empties, an
/// en-passant capture also empties the target square, and a castle
/// relocates king and rook at once.
pub open spec fn cells_after_piece_move(bv: BoardV, mv: PieceMove) -> Seq<Option<Piece>> {
    match mv {
        PieceMove::Piece { from, to, promotion, .. } => {
            let moved = match promotion {
                Some(kind) => Piece { kind, side: bv.next_move },
                None => bv.at(from).unwrap(),
            };
            bv.cells.update(from.idx(), None).update(to.idx(), Some(moved))
        },
        PieceMove::EnPassant { from, to } => {
            let cleared = bv.cells.update(bv.en_passant.unwrap().idx(), None);
            let pawn = cleared[from.idx()].unwrap();
            cleared.update(from.idx(), None).update(to.idx(), Some(pawn))
        },
        PieceMove::Castle { from_king, to_king, from_rook, to_rook } => {
            let king = bv.at(from_king).unwrap();
            let rook = bv.at(from_rook).unwrap();
            bv.cells.update(from_king.idx(), None).update(from_rook.idx(), None).update(
                to_king.idx(),
                Some(king),
            ).update(to_rook.idx(), Some(rook))
        },
    }
}

/// The board after the side to move plays the piece-move half `mv` of a
/// turn: the cells change as [`cells_after_piece_move`] says, castling
/// rights are revoked as [`rights_after_piece_move`] says, the
/// en-passant target is set exactly after a double push, and the duck
/// placement becomes outstanding.
pub open spec fn spec_apply_piece_move(bv: BoardV, mv: PieceMove) -> BoardV {
    BoardV {
        cells: cells_after_piece_move(bv, mv),
        can_castle: rights_after_piece_move(bv, mv),
        en_passant: double_push_target(mv),
        next_move: bv.next_move,
        moved_piece: true,
    }
}

/// The board after the duck is placed on `square`, with `duck_square`
/// naming where the duck stood before (cleared first, if anywhere): the
/// phase flag resets and the side to move flips.  The en-passant target
/// survives the duck placement, so the opponent can still capture en
/// passant.
pub open spec fn spec_apply_duck_move(bv: BoardV, square: Square, duck_square: Option<Square>) -> BoardV {
    let cleared = match duck_square {
        Some(d) => bv.cells.update(d.idx(), None),
        None => bv.cells,
    };
    BoardV {
        cells: cleared.update(square.idx(), Some(Piece { kind: PieceKind::Duck, side: bv.next_move })),
        can_castle: bv.can_castle,
        en_passant: bv.en_passant,
        next_move: bv.next_move.spec_other(),
        moved_piece: false,
    }
}

/// The one-shot model of a full turn `mv` on a board whose duck stands
/// on `ds` (or nowhere): the piece-move cell changes and the duck's
/// relocation happen in one rewrite, rights are revoked as the piece
/// move demands, the en-passant target is set exactly on a double push,
/// the side flips, and a piece move is expected again.
pub open spec fn spec_apply_full_move(bv: BoardV, ds: Option<Square>, mv: Move) -> BoardV {
    let moved_cells = cells_after_piece_move(bv, mv.piece);
    let cleared = match ds {
        Some(d) => moved_cells.update(d.idx(), None),
        None => moved_cells,
    };
    BoardV {
        cells: cleared.update(
            mv.duck.idx(),
            Some(Piece { kind: PieceKind::Duck, side: bv.next_move }),
        ),
        can_castle: rights_after_piece_move(bv, mv.piece),
        en_passant: double_push_target(mv.piece),
        next_move: bv.next_move.spec_other(),
        moved_piece: false,
    }
}

/// Applying a turn's two halves in order — the piece move, then the
/// duck placement — produces exactly the one-shot full-turn board
/// [`spec_apply_full_move`]: the two-phase application round-trips with
/// replaying the bundled [`Move`] directly.
pub proof fn lemma_apply_move_composes(bv: BoardV, ds: Option<Square>, mv: Move)
    ensures
        spec_apply_duck_move(spec_apply_piece_move(bv, mv.piece), mv.duck, ds)
            == spec_apply_full_move(bv, ds, mv),
{
    assert(spec_apply_duck_move(spec_apply_piece_move(bv, mv.piece), mv.duck, ds)
        =~= spec_apply_full_move(bv, ds, mv));
}

/// Castling rights are only ever revoked, never granted back: whatever
/// piece move is played, a right that stands afterwards stood before;
/// and the duck placement leaves all rights untouched.
pub proof fn lemma_castle_rights_monotone(bv: BoardV, mv: PieceMove, square: Square, ds: Option<
    Square,
>)
    ensures
        spec_apply_piece_move(bv, mv).can_castle.white.0 ==> bv.can_castle.white.0,
        spec_apply_piece_move(bv, mv).can_castle.white.1 ==> bv.can_castle.white.1,
        spec_apply_piece_move(bv, mv).can_castle.black.0 ==> bv.can_castle.black.0,
        spec_apply_piece_move(bv, mv).can_castle.black.1 ==> bv.can_castle.black.1,
        spec_apply_duck_move(bv, square, ds).can_castle == bv.can_castle,
{
}

/// Moving the king or castling revokes both of the mover's rights;
/// moving a rook out of file 0 revokes the long right, out of file 7
/// the short right.  Returning the piece later cannot help: by
/// [`lemma_castle_rights_monotone`] a revoked right stays revoked.
pub proof fn lemma_moves_revoke_rights(bv: BoardV, mv: PieceMove)
    ensures
        (match mv {
            PieceMove::Piece { piece: PieceKind::King, .. } => spec_apply_piece_move(
                bv,
                mv,
            ).rights_of(bv.next_move) == (false, false),
            PieceMove::Castle { .. } => spec_apply_piece_move(bv, mv).rights_of(bv.next_move) == (
                false,
                false,
            ),
            PieceMove::Piece { piece: PieceKind::Rook, from, .. } => {
                &&& from.idx() % 8 == 0 ==> !spec_apply_piece_move(bv, mv).rights_of(
                    bv.next_move,
                ).0
                &&& from.idx() % 8 == 7 ==> !spec_apply_piece_move(bv, mv).rights_of(
                    bv.next_move,
                ).1
            },
            _ => true,
        }),
{
}

/// The en-passant target is set by a pawn double push, cleared by every
/// other piece move, and survives the duck placement untouched.
pub proof fn lemma_en_passant_lifecycle(bv: BoardV, mv: PieceMove, square: Square, ds: Option<
    Square,
>)
    ensures
        spec_apply_piece_move(bv, mv).en_passant == double_push_target(mv),
        is_double_push(mv) <==> double_push_target(mv) is Some,
        spec_apply_duck_move(bv, square, ds).en_passant == bv.en_passant,
{
}

impl Board {
    /// An empty board: no pieces, all castling rights, white to move.
    pub fn new() -> (r: Board)
        ensures
            r@.wf(),
            r@.cells == Seq::new(64, |i: int| None::<Piece>),
            r@.can_castle == (CanCastle { white: (true, true), black: (true, true) }),
            r@.en_passant is None,
            r@.next_move == Side::White,
            !r@.moved_piece,
    {
        let mut cells: Vec<Option<Piece>> = Vec::new();
        let mut i: usize = 0;
        while i < 64
            invariant
                i <= 64,
                cells@.len() == i,
                forall|j: int| 0 <= j < i ==> cells@[j] is None,
            decreases 64 - i,
        {
            cells.push(None);
            i += 1;
        }
        let r = Board {
            board: cells,
            can_castle: CanCastle { white: (true, true), black: (true, true) },
            en_passant: None,
            next_move: Side::White,
            moved_piece: false,
        };
        proof {
            assert(r@.cells =~= Seq::new(64, |i: int| None::<Piece>));
        }
        r
    }

    /// The cell with index `i` of the start position.
    fn start_cell(i: u8) -> (r: Option<Piece>)
        requires
            i < 64,
        ensures
            r == spec_start_cell(i as int),
    {
        let x = i % 8;
        let y = i / 8;
        let back = if x == 0 || x == 7 {
            PieceKind::Rook
        } else if x == 1 || x == 6 {
            PieceKind::Knight
        } else if x == 2 || x == 5 {
            PieceKind::Bishop
        } else if x == 3 {
            PieceKind::Queen
        } else {
            PieceKind::King
        };
        if y == 0 {
            Some(Piece { kind: back, side: Side::Black })
        } else if y == 1 {
            Some(Piece { kind: PieceKind::Pawn, side: Side::Black })
        } else if y == 6 {
            Some(Piece { kind: PieceKind::Pawn, side: Side::White })
        } else if y == 7 {
            Some(Piece { kind: back, side: Side::White })
        } else {
            None
        }
    }

    /// Resets the board to the standard start position.
    pub fn set_start_position(&mut self)
        ensures
            final(self)@ == start_board(),
    {
        let mut cells: Vec<Option<Piece>> = Vec::new();
        let mut i: usize = 0;
        while i < 64
            invariant
                i <= 64,
                cells@.len() == i,
                forall|j: int| 0 <= j < i ==> cells@[j] == spec_start_cell(j),
            decreases 64 - i,
        {
            cells.push(Self::start_cell(i as u8));
            i += 1;
        }
        self.board = cells;
        self.can_castle = CanCastle { white: (true, true), black: (true, true) };
        self.en_passant = None;
        self.next_move = Side::White;
        self.moved_piece = false;
        proof {
            assert(self@ =~= start_board());
        }
    }

    /// The cell under `square`.
    pub fn piece_at(&self, square: Square) -> (r: Option<Piece>)
        requires
            self@.wf(),
        ensures
            r == self@.at(square),
    {
        self.board[square.as_index() as usize]
    }

    /// Whether a piece of `side` may capture `piece`.
    pub fn can_eat_piece(piece: Piece, side: Side) -> (r: bool)
        ensures
            r == spec_can_eat(piece, side),
    {
        !piece.kind.is_duck() && piece.side != side
    }

    /// A copy of the board with the same model.
    pub fn duplicate(&self) -> (r: Board)
        ensures
            r@ == self@,
    {
        let r = Board {
            board: vstd::slice::slice_to_vec(self.board.as_slice()),
            can_castle: self.can_castle,
            en_passant: self.en_passant,
            next_move: self.next_move,
            moved_piece: self.moved_piece,
        };
        proof {
            assert(r@ =~= self@);
        }
        r
    }

    /// Sets the `long` or short castling right of the side to move.
    pub fn set_can_castle(&mut self, can_castle: bool, long: bool)
        ensures
            final(self)@ == (BoardV {
                can_castle: rights_after_set(old(self)@.can_castle, old(self)@.next_move, can_castle, long),
                ..old(self)@
            }),
    {
        match self.next_move {
            Side::White if long => {
                self.can_castle.white.0 = can_castle;
            },
            Side::White => {
                self.can_castle.white.1 = can_castle;
            },
            Side::Black if long => {
                self.can_castle.black.0 = can_castle;
            },
            Side::Black => {
                self.can_castle.black.1 = can_castle;
            },
        }
    }

    /// Plays the piece-move half of a turn.  The move must be applicable
    /// (see [`piece_move_applicable`]); every move the generator offers
    /// is.
    pub fn apply_piece_move(&mut self, mv: PieceMove)
        requires
            old(self)@.wf(),
            !old(self)@.moved_piece,
            piece_move_applicable(old(self)@, mv),
        ensures
            final(self)@ == spec_apply_piece_move(old(self)@, mv),
            final(self)@.wf(),
    {
        match mv {
            PieceMove::Piece { piece, from, to, promotion, .. } => {
                match piece {
                    PieceKind::Rook => {
                        if from.x() == 0 {
                            self.set_can_castle(false, true);
                        } else if from.x() == 7 {
                            self.set_can_castle(false, false);
                        }
                    },
                    PieceKind::King => {
                        self.set_can_castle(false, true);
                        self.set_can_castle(false, false);
                    },
                    _ => {},
                }
                let double_push = from.x() == to.x() && (if from.y() >= to.y() {
                    from.y() - to.y()
                } else {
                    to.y() - from.y()
                }) == 2;
                let new_en_passant = if piece == PieceKind::Pawn && double_push {
                    Some(to)
                } else {
                    None
                };
                let new_piece = match promotion {
                    Some(kind) => Piece { kind, side: self.next_move },
                    None => self.piece_at(from).unwrap(),
                };
                self.board[from.as_index() as usize] = None;
                self.board[to.as_index() as usize] = Some(new_piece);
                self.en_passant = new_en_passant;
                self.moved_piece = true;
                proof {
                    assert(self@ =~= spec_apply_piece_move(old(self)@, mv));
                }
            },
            PieceMove::EnPassant { from, to } => {
                let square = self.en_passant.unwrap();
                self.en_passant = None;
                self.board[square.as_index() as usize] = None;
                let pawn = self.piece_at(from).unwrap();
                self.board[from.as_index() as usize] = None;
                self.board[to.as_index() as usize] = Some(pawn);
                self.moved_piece = true;
                proof {
                    assert(self@ =~= spec_apply_piece_move(old(self)@, mv));
                }
            },
            PieceMove::Castle { from_king, to_king, from_rook, to_rook } => {
                let king = self.piece_at(from_king).unwrap();
                let rook = self.piece_at(from_rook).unwrap();
                self.board[from_king.as_index() as usize] = None;
                self.board[from_rook.as_index() as usize] = None;
                self.board[to_king.as_index() as usize] = Some(king);
                self.board[to_rook.as_index() as usize] = Some(rook);
                self.set_can_castle(false, true);
                self.set_can_castle(false, false);
                self.en_passant = None;
                self.moved_piece = true;
                proof {
                    assert(self@ =~= spec_apply_piece_move(old(self)@, mv));
                }
            },
        }
    }

    /// Plays the duck placement of a turn.  `duck_square` must name where
    /// the duck stood before the move, or `None` before the first
    /// placement of a game.
    pub fn apply_duck_move(&mut self, square: Square, duck_square: Option<Square>)
        requires
            old(self)@.wf(),
            old(self)@.moved_piece,
        ensures
            final(self)@ == spec_apply_duck_move(old(self)@, square, duck_square),
            final(self)@.wf(),
    {
        if let Some(d) = duck_square {
            self.board[d.as_index() as usize] = None;
        }
        let next_move = self.next_move;
        self.board[square.as_index() as usize] = Some(
            Piece { kind: PieceKind::Duck, side: next_move },
        );
        self.moved_piece = false;
        self.next_move = self.next_move.other();
        proof {
            assert(self@ =~= spec_apply_duck_move(old(self)@, square, duck_square));
        }
    }
}

} // verus!
