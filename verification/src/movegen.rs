//! Move generation: every function appends to a caller-supplied list and
//! its contract says exactly which moves it appends, in which order.
//!
//! The spec side models each generator as a sequence of moves.  A ray of
//! a sliding piece is [`walk_moves`]: it runs square by square until the
//! board edge, a blocking piece, or a capture.  The per-kind sequences
//! are combined by [`piece_moves_at`], and [`all_piece_moves`] strings
//! together the moves of every piece of the side to move, square by
//! square in board order.

use vstd::prelude::*;

use crate::engine::BitBoard;
use crate::lookup::{has_neighbor, neighbor_upto};
use crate::square::{square_of, Direction, Square};
use crate::types::{
    knight_directions, spec_apply_piece_move, spec_can_eat, Board, BoardV, Piece,
    PieceKind, PieceMove, Side,
};

verus! {

/// A plain (non-promoting) move of `kind` from `from` to `to`.
pub open spec fn ray_move(kind: PieceKind, from: Square, to: Square, capture: Option<PieceKind>) -> PieceMove {
    PieceMove::Piece { piece: kind, from, to, capture, promotion: None }
}

/// What `(valid, capture)` a mover of `side` finds on `square`: an empty
/// square is enterable, an enemy non-duck piece is a capture, anything
/// else blocks.
pub open spec fn spec_valid_square(bv: BoardV, square: Square, side: Side) -> (bool, Option<
    PieceKind,
>) {
    match bv.at(square) {
        None => (true, None),
        Some(p) => if spec_can_eat(p, side) {
            (true, Some(p.kind))
        } else {
            (false, None)
        },
    }
}

/// The moves of one ray: step from `cur` in direction `dir` for at most
/// `fuel` squares, collecting quiet moves over empty squares, ending with
/// a capture, the board edge, or a blocking piece.
pub open spec fn walk_moves(
    bv: BoardV,
    mover: Piece,
    orig: Square,
    cur: Square,
    dir: Direction,
    fuel: nat,
) -> Seq<PieceMove>
    decreases fuel,
{
    if fuel == 0 {
        Seq::empty()
    } else {
        match cur.spec_add_dir(dir) {
            None => Seq::empty(),
            Some(n) => match bv.at(n) {
                None => seq![ray_move(mover.kind, orig, n, None)] + walk_moves(
                    bv,
                    mover,
                    orig,
                    n,
                    dir,
                    (fuel - 1) as nat,
                ),
                Some(p) => if spec_can_eat(p, mover.side) {
                    seq![ray_move(mover.kind, orig, n, Some(p.kind))]
                } else {
                    Seq::empty()
                },
            },
        }
    }
}

/// The rays of the first `n` directions of `dirs`, concatenated.
pub open spec fn dir_moves_upto(
    bv: BoardV,
    mover: Piece,
    from: Square,
    dirs: Seq<Direction>,
    fuel: nat,
    n: int,
) -> Seq<PieceMove>
    decreases n,
{
    if n <= 0 {
        Seq::empty()
    } else {
        dir_moves_upto(bv, mover, from, dirs, fuel, n - 1) + walk_moves(
            bv,
            mover,
            from,
            from,
            dirs[n - 1],
            fuel,
        )
    }
}

/// All rays of `mover` standing on `from`, one per direction of `dirs`.
pub open spec fn dir_moves(
    bv: BoardV,
    mover: Piece,
    from: Square,
    dirs: Seq<Direction>,
    fuel: nat,
) -> Seq<PieceMove> {
    dir_moves_upto(bv, mover, from, dirs, fuel, dirs.len() as int)
}

/// The home row of `side`: rank-row 7 for white, 0 for black.
pub open spec fn castle_row(side: Side) -> int {
    match side {
        Side::White => 7,
        Side::Black => 0,
    }
}

/// The long castle of the king on `from`, over home row `y`.
pub open spec fn long_castle_move(from: Square, y: int) -> PieceMove {
    PieceMove::Castle {
        from_king: from,
        to_king: square_of(y * 8 + 2),
        from_rook: square_of(y * 8),
        to_rook: square_of(y * 8 + 3),
    }
}

/// The short castle of the king on `from`, over home row `y`.
pub open spec fn short_castle_move(from: Square, y: int) -> PieceMove {
    PieceMove::Castle {
        from_king: from,
        to_king: square_of(y * 8 + 6),
        from_rook: square_of(y * 8 + 7),
        to_rook: square_of(y * 8 + 5),
    }
}

/// Whether the cell with index `i` holds a piece that can serve as the
/// castling rook: present and not the duck.
pub open spec fn castle_rook_at(bv: BoardV, i: int) -> bool {
    match bv.cells[i] {
        Some(p) => !p.kind.spec_is_duck(),
        None => false,
    }
}

/// The castle candidates of the piece on `from`: a castle is offered
/// while the matching right stands, every square strictly between king
/// and rook is free, and the rook square holds a non-duck piece.  No
/// attack-safety test is made; the variant has no check.
pub open spec fn castle_moves(bv: BoardV, from: Square) -> Seq<PieceMove> {
    let side = bv.at(from).unwrap().side;
    let y = castle_row(side);
    let rights = bv.rights_of(side);
    let long_part = if rights.0 && bv.cells[y * 8 + 1] is None && bv.cells[y * 8 + 2] is None
        && bv.cells[y * 8 + 3] is None && castle_rook_at(bv, y * 8) {
        seq![long_castle_move(from, y)]
    } else {
        Seq::empty()
    };
    let short_part = if rights.1 && bv.cells[y * 8 + 5] is None && bv.cells[y * 8 + 6] is None
        && castle_rook_at(bv, y * 8 + 7) {
        seq![short_castle_move(from, y)]
    } else {
        Seq::empty()
    };
    long_part + short_part
}

/// The single knight step of `mover` from `from` along `dir`, if any.
pub open spec fn knight_one(bv: BoardV, mover: Piece, from: Square, dir: Direction) -> Seq<
    PieceMove,
> {
    match from.spec_add_dir(dir) {
        None => Seq::empty(),
        Some(n) => match bv.at(n) {
            Some(p) => if spec_can_eat(p, mover.side) {
                seq![ray_move(mover.kind, from, n, Some(p.kind))]
            } else {
                Seq::empty()
            },
            None => seq![ray_move(mover.kind, from, n, None)],
        },
    }
}

/// The knight steps of the first `n` knight directions, concatenated.
pub open spec fn knight_moves_upto(bv: BoardV, mover: Piece, from: Square, n: int) -> Seq<
    PieceMove,
>
    decreases n,
{
    if n <= 0 {
        Seq::empty()
    } else {
        knight_moves_upto(bv, mover, from, n - 1) + knight_one(
            bv,
            mover,
            from,
            knight_directions()[n - 1],
        )
    }
}

/// All eight knight steps of the piece on `from`.
pub open spec fn knight_moves(bv: BoardV, from: Square) -> Seq<PieceMove> {
    knight_moves_upto(bv, bv.at(from).unwrap(), from, 8)
}

/// The forward direction of a pawn of `side`.
pub open spec fn pawn_dir(side: Side) -> Direction {
    match side {
        Side::White => Direction::Up,
        Side::Black => Direction::Down,
    }
}

/// The two capture directions of a pawn of `side`.
pub open spec fn pawn_take_dirs(side: Side) -> (Direction, Direction) {
    match side {
        Side::White => (Direction::UpLeft, Direction::UpRight),
        Side::Black => (Direction::DownLeft, Direction::DownRight),
    }
}

/// The rank row a pawn of `side` starts on (from which it may push twice).
pub open spec fn pawn_start_row(side: Side) -> int {
    match side {
        Side::White => 6,
        Side::Black => 1,
    }
}

/// The rank row from which a pawn of `side` promotes on its next push.
pub open spec fn pawn_promo_row(side: Side) -> int {
    match side {
        Side::White => 1,
        Side::Black => 6,
    }
}

/// Quiet pawn pushes: up to `fuel` forward steps from `cur`, stopping at
/// the board edge or the first occupied square.
pub open spec fn pawn_push_walk(
    bv: BoardV,
    mover: Piece,
    from: Square,
    cur: Square,
    fuel: nat,
) -> Seq<PieceMove>
    decreases fuel,
{
    if fuel == 0 {
        Seq::empty()
    } else {
        match cur.spec_add_dir(pawn_dir(mover.side)) {
            None => Seq::empty(),
            Some(n) => if bv.at(n) is Some {
                Seq::empty()
            } else {
                seq![ray_move(mover.kind, from, n, None)] + pawn_push_walk(
                    bv,
                    mover,
                    from,
                    n,
                    (fuel - 1) as nat,
                )
            },
        }
    }
}

/// The quiet pushes of the pawn on `from`: two from the start row, one
/// otherwise.
pub open spec fn pawn_push_part(bv: BoardV, mover: Piece, from: Square) -> Seq<PieceMove> {
    let fuel: nat = if from.idx() / 8 == pawn_start_row(mover.side) {
        2
    } else {
        1
    };
    pawn_push_walk(bv, mover, from, from, fuel)
}

/// A promotion of the pawn on `from` to `kind`, landing on `to`.
pub open spec fn promo_move(mover: Piece, from: Square, to: Square, kind: PieceKind) -> PieceMove {
    PieceMove::Piece { piece: mover.kind, from, to, capture: None, promotion: Some(kind) }
}

/// The four promotion pushes of the pawn on `from`, offered when it
/// stands one step before the far rank and that step is free.
pub open spec fn pawn_promo_part(bv: BoardV, mover: Piece, from: Square) -> Seq<PieceMove> {
    if from.idx() / 8 == pawn_promo_row(mover.side) {
        let psq = from.spec_add_dir(pawn_dir(mover.side)).unwrap();
        if bv.at(psq) is None {
            seq![
                promo_move(mover, from, psq, PieceKind::Rook),
                promo_move(mover, from, psq, PieceKind::Knight),
                promo_move(mover, from, psq, PieceKind::Bishop),
                promo_move(mover, from, psq, PieceKind::Queen),
            ]
        } else {
            Seq::empty()
        }
    } else {
        Seq::empty()
    }
}

/// The diagonal capture of the pawn on `from` along `dir`, if an enemy
/// non-duck piece stands there.
pub open spec fn pawn_take_one(bv: BoardV, mover: Piece, from: Square, dir: Direction) -> Seq<
    PieceMove,
> {
    match from.spec_add_dir(dir) {
        None => Seq::empty(),
        Some(n) => match bv.at(n) {
            None => Seq::empty(),
            Some(p) => if spec_can_eat(p, mover.side) {
                seq![ray_move(mover.kind, from, n, Some(p.kind))]
            } else {
                Seq::empty()
            },
        },
    }
}

/// The en-passant capture of the pawn on `from`, offered when a target
/// square is set, lies on the pawn's rank row, and sits in the directly
/// neighboring file, and the landing square is free (the duck may stand
/// there, and the duck is never capturable).
pub open spec fn pawn_ep_part(bv: BoardV, mover: Piece, from: Square) -> Seq<PieceMove> {
    match bv.en_passant {
        None => Seq::empty(),
        Some(eps) => if eps.idx() / 8 == from.idx() / 8 && (eps.idx() % 8 - from.idx() % 8 == 1
            || from.idx() % 8 - eps.idx() % 8 == 1) {
            let to = match eps.spec_add_dir(pawn_dir(mover.side)) {
                Some(n) => n,
                None => eps,
            };
            if bv.at(to) is None {
                seq![PieceMove::EnPassant { from, to }]
            } else {
                Seq::empty()
            }
        } else {
            Seq::empty()
        },
    }
}

/// All moves of the pawn on `from`: pushes, then promotions, then the
/// two diagonal captures, then en passant.
pub open spec fn pawn_moves(bv: BoardV, from: Square) -> Seq<PieceMove> {
    let mover = bv.at(from).unwrap();
    let takes = pawn_take_dirs(mover.side);
    pawn_push_part(bv, mover, from) + pawn_promo_part(bv, mover, from) + pawn_take_one(
        bv,
        mover,
        from,
        takes.0,
    ) + pawn_take_one(bv, mover, from, takes.1) + pawn_ep_part(bv, mover, from)
}

/// The empty squares among the first `n` board indices, in board order.
pub open spec fn empty_squares_upto(bv: BoardV, n: int) -> Seq<Square>
    decreases n,
{
    if n <= 0 {
        Seq::empty()
    } else {
        empty_squares_upto(bv, n - 1) + (if bv.cells[n - 1] is None {
            seq![square_of(n - 1)]
        } else {
            Seq::empty()
        })
    }
}

/// Every legal duck destination: every empty square, in board order.
pub open spec fn duck_squares(bv: BoardV) -> Seq<Square> {
    empty_squares_upto(bv, 64)
}

/// Whether cell `i` holds any piece, the duck included.
pub open spec fn piece_occupied(bv: BoardV, i: int) -> bool {
    bv.cells[i] is Some
}

/// Whether one of the first `n` neighbor directions of `s` leads to an
/// occupied cell.
pub open spec fn occupied_neighbor_upto(bv: BoardV, s: Square, n: int) -> bool
    decreases n,
{
    if n <= 0 {
        false
    } else {
        occupied_neighbor_upto(bv, s, n - 1) || match s.spec_add_dir(
            crate::lookup::neighbor_directions()[n - 1],
        ) {
            Some(nn) => piece_occupied(bv, nn.idx()),
            None => false,
        }
    }
}

/// Whether some grid neighbor of `s` holds a piece.
pub open spec fn has_piece_neighbor(bv: BoardV, s: Square) -> bool {
    occupied_neighbor_upto(bv, s, 8)
}

/// The squares of [`reasonable_squares`] among the first `n` indices.
pub open spec fn reasonable_upto(bv: BoardV, n: int) -> Seq<Square>
    decreases n,
{
    if n <= 0 {
        Seq::empty()
    } else {
        reasonable_upto(bv, n - 1) + (if bv.cells[n - 1] is None && has_piece_neighbor(
            bv,
            square_of(n - 1),
        ) {
            seq![square_of(n - 1)]
        } else {
            Seq::empty()
        })
    }
}

/// The pruned duck destinations: the empty squares with an occupied
/// grid neighbor, in board order.
pub open spec fn reasonable_squares(bv: BoardV) -> Seq<Square> {
    reasonable_upto(bv, 64)
}

/// Every move the piece kind `kind` standing on `from` may play.
pub open spec fn piece_moves_at(bv: BoardV, kind: PieceKind, from: Square) -> Seq<PieceMove> {
    match kind {
        PieceKind::Rook | PieceKind::Bishop | PieceKind::Queen => dir_moves(
            bv,
            bv.at(from).unwrap(),
            from,
            kind.spec_directions(),
            8,
        ),
        PieceKind::King => dir_moves(bv, bv.at(from).unwrap(), from, kind.spec_directions(), 1)
            + castle_moves(bv, from),
        PieceKind::Pawn => pawn_moves(bv, from),
        PieceKind::Knight => knight_moves(bv, from),
        PieceKind::Duck => Seq::empty(),
    }
}

impl Board {
    /// Classifies `square` for a mover of `side`: returns whether the
    /// square can be entered and, if so, which kind is captured there.
    pub fn valid_square_for_piece(&self, square: Square, side: Side) -> (r: (bool, Option<
        PieceKind,
    >))
        requires
            self@.wf(),
        ensures
            r == spec_valid_square(self@, square, side),
    {
        let Some(piece) = self.piece_at(square) else { return (true, None) };
        let valid = Self::can_eat_piece(piece, side);
        if valid {
            (true, Some(piece.kind))
        } else {
            (false, None)
        }
    }

    /// Appends the ray moves of the piece on `from` along each direction
    /// of `dirs`, at most one step per ray when `max_one` is set (the
    /// king), else up to the full board width.
    #[verifier::loop_isolation(false)]
    #[verifier::rlimit(60)]
    pub fn available_moves_by_dir(
        &self,
        from: Square,
        dirs: &[Direction],
        max_one: bool,
        list: &mut Vec<PieceMove>,
    )
        requires
            self@.wf(),
            self@.at(from) is Some,
        ensures
            final(list)@ == old(list)@ + dir_moves(
                self@,
                self@.at(from).unwrap(),
                from,
                dirs@,
                if max_one {
                    1nat
                } else {
                    8nat
                },
            ),
    {
        let dist: u8 = if max_one {
            1
        } else {
            8
        };
        let ghost fuel: nat = dist as nat;
        let piece = self.piece_at(from).unwrap();
        let mut di: usize = 0;
        while di < dirs.len()
            invariant
                di <= dirs@.len(),
                list@ == old(list)@ + dir_moves_upto(self@, piece, from, dirs@, fuel, di as int),
            decreases dirs@.len() - di,
        {
            let dir = dirs[di];
            let ghost target = old(list)@ + dir_moves_upto(
                self@,
                piece,
                from,
                dirs@,
                fuel,
                di as int + 1,
            );
            let mut to = from;
            let mut k: u8 = 0;
            let mut done = false;
            while k < dist && !done
                invariant
                    k <= dist,
                    done ==> list@ == target,
                    !done ==> list@ + walk_moves(self@, piece, from, to, dir, (dist - k) as nat)
                        == target,
                decreases dist - k, if done { 0int } else { 1int },
            {
                let ghost prev = to;
                let ghost rest: nat = (dist - k) as nat;
                if !to.apply_dir(dir) {
                    proof {
                        assert(walk_moves(self@, piece, from, prev, dir, rest) =~= Seq::empty());
                        assert(list@ =~= list@ + Seq::<PieceMove>::empty());
                    }
                    done = true;
                } else {
                    let (valid, capture) = self.valid_square_for_piece(to, piece.side);
                    if !valid {
                        proof {
                            assert(walk_moves(self@, piece, from, prev, dir, rest)
                                =~= Seq::empty());
                            assert(list@ =~= list@ + Seq::<PieceMove>::empty());
                        }
                        done = true;
                    } else {
                        list.push(PieceMove::Piece {
                            piece: piece.kind,
                            from,
                            to,
                            capture,
                            promotion: None,
                        });
                        if capture.is_some() {
                            proof {
                                assert(walk_moves(self@, piece, from, prev, dir, rest) =~= seq![
                                    ray_move(piece.kind, from, to, capture),
                                ]);
                            }
                            done = true;
                        } else {
                            proof {
                                assert(walk_moves(self@, piece, from, prev, dir, rest) =~= seq![
                                    ray_move(piece.kind, from, to, None),
                                ] + walk_moves(self@, piece, from, to, dir, (rest - 1) as nat));
                                assert(list@ + walk_moves(
                                    self@,
                                    piece,
                                    from,
                                    to,
                                    dir,
                                    (rest - 1) as nat,
                                ) =~= target);
                            }
                            k += 1;
                        }
                    }
                }
            }
            proof {
                if !done {
                    assert(walk_moves(self@, piece, from, to, dir, 0nat) =~= Seq::empty());
                    assert(list@ =~= target);
                }
            }
            di += 1;
        }
        proof {
            assert(list@ =~= old(list)@ + dir_moves(
                self@,
                piece,
                from,
                dirs@,
                if max_one {
                    1nat
                } else {
                    8nat
                },
            ));
        }
    }

    /// Appends the castle candidates of the king on `square` (see
    /// [`castle_moves`]).
    pub fn available_castle_moves(&self, square: Square, list: &mut Vec<PieceMove>)
        requires
            self@.wf(),
            self@.at(square) is Some,
        ensures
            final(list)@ == old(list)@ + castle_moves(self@, square),
    {
        let piece = self.piece_at(square).unwrap();
        let (y, can_castle_long, can_castle_short): (u8, bool, bool) = match piece.side {
            Side::White => (7, self.can_castle.white.0, self.can_castle.white.1),
            Side::Black => (0, self.can_castle.black.0, self.can_castle.black.1),
        };
        if can_castle_long {
            let all_free = self.piece_at(Square::from_xy(1, y)).is_none() && self.piece_at(
                Square::from_xy(2, y),
            ).is_none() && self.piece_at(Square::from_xy(3, y)).is_none();
            let rook_there = match self.piece_at(Square::from_xy(0, y)) {
                Some(p) => !p.kind.is_duck(),
                None => false,
            };
            if all_free && rook_there {
                list.push(PieceMove::Castle {
                    from_king: square,
                    to_king: Square::from_xy(2, y),
                    from_rook: Square::from_xy(0, y),
                    to_rook: Square::from_xy(3, y),
                });
            }
        }
        if can_castle_short {
            let all_free = self.piece_at(Square::from_xy(5, y)).is_none() && self.piece_at(
                Square::from_xy(6, y),
            ).is_none();
            let rook_there = match self.piece_at(Square::from_xy(7, y)) {
                Some(p) => !p.kind.is_duck(),
                None => false,
            };
            if all_free && rook_there {
                list.push(PieceMove::Castle {
                    from_king: square,
                    to_king: Square::from_xy(6, y),
                    from_rook: Square::from_xy(7, y),
                    to_rook: Square::from_xy(5, y),
                });
            }
        }
        proof {
            assert(list@ =~= old(list)@ + castle_moves(self@, square));
        }
    }

    /// Appends the knight steps of the knight on `square` (see
    /// [`knight_moves`]).
    #[verifier::loop_isolation(false)]
    pub fn available_knight_moves(&self, square: Square, list: &mut Vec<PieceMove>)
        requires
            self@.wf(),
            self@.at(square) is Some,
        ensures
            final(list)@ == old(list)@ + knight_moves(self@, square),
    {
        let piece = self.piece_at(square).unwrap();
        let dirs: Vec<Direction> = Self::knight_dirs();
        let mut di: usize = 0;
        while di < dirs.len()
            invariant
                di <= 8,
                list@ == old(list)@ + knight_moves_upto(self@, piece, square, di as int),
            decreases 8 - di,
        {
            let dir = dirs[di];
            let ghost target = old(list)@ + knight_moves_upto(
                self@,
                piece,
                square,
                di as int + 1,
            );
            if let Some(new_square) = square.add_dir(dir) {
                match self.piece_at(new_square) {
                    Some(eat_piece) => {
                        if Self::can_eat_piece(eat_piece, piece.side) {
                            list.push(PieceMove::Piece {
                                piece: piece.kind,
                                from: square,
                                to: new_square,
                                capture: Some(eat_piece.kind),
                                promotion: None,
                            });
                        }
                    },
                    None => {
                        list.push(PieceMove::Piece {
                            piece: piece.kind,
                            from: square,
                            to: new_square,
                            capture: None,
                            promotion: None,
                        });
                    },
                }
            }
            proof {
                assert(list@ =~= target);
            }
            di += 1;
        }
    }

    /// The eight knight directions, in generation order.
    fn knight_dirs() -> (r: Vec<Direction>)
        ensures
            r@ == knight_directions(),
    {
        let mut r: Vec<Direction> = Vec::new();
        r.push(Direction::KnUpRight);
        r.push(Direction::KnRightUp);
        r.push(Direction::KnRightDown);
        r.push(Direction::KnDownRight);
        r.push(Direction::KnDownLeft);
        r.push(Direction::KnLeftDown);
        r.push(Direction::KnLeftUp);
        r.push(Direction::KnUpLeft);
        proof {
            assert(r@ =~= knight_directions());
        }
        r
    }

    /// Appends the moves of the pawn on `square` (see [`pawn_moves`]):
    /// quiet pushes, promotions, diagonal captures, en passant.
    #[verifier::rlimit(100)]
    pub fn available_pawn_moves(&self, square: Square, list: &mut Vec<PieceMove>)
        requires
            self@.wf(),
            self@.at(square) is Some,
        ensures
            final(list)@ == old(list)@ + pawn_moves(self@, square),
    {
        let piece = self.piece_at(square).unwrap();
        self.pawn_pushes(piece, square, list);
        self.pawn_promotions(piece, square, list);
        let (take_dir_a, take_dir_b): (Direction, Direction) = match piece.side {
            Side::White => (Direction::UpLeft, Direction::UpRight),
            Side::Black => (Direction::DownLeft, Direction::DownRight),
        };
        self.pawn_take(piece, square, take_dir_a, list);
        self.pawn_take(piece, square, take_dir_b, list);
        self.pawn_en_passant(piece, square, list);
        proof {
            let takes = pawn_take_dirs(piece.side);
            lemma_concat_five(
                old(list)@,
                pawn_push_part(self@, piece, square),
                pawn_promo_part(self@, piece, square),
                pawn_take_one(self@, piece, square, takes.0),
                pawn_take_one(self@, piece, square, takes.1),
                pawn_ep_part(self@, piece, square),
            );
        }
    }

    /// Appends the quiet pushes of the pawn on `square`.
    #[verifier::loop_isolation(false)]
    fn pawn_pushes(&self, piece: Piece, square: Square, list: &mut Vec<PieceMove>)
        requires
            self@.wf(),
            self@.at(square) == Some(piece),
        ensures
            final(list)@ == old(list)@ + pawn_push_part(self@, piece, square),
    {
        let (second_rank, dir): (u8, Direction) = match piece.side {
            Side::White => (6, Direction::Up),
            Side::Black => (1, Direction::Down),
        };
        let move_dist: u8 = if square.y() == second_rank {
            2
        } else {
            1
        };
        let ghost push_target = old(list)@ + pawn_push_part(self@, piece, square);
        let mut up_square = square;
        let mut k: u8 = 0;
        let mut done = false;
        while k < move_dist && !done
            invariant
                k <= move_dist,
                done ==> list@ == push_target,
                !done ==> list@ + pawn_push_walk(
                    self@,
                    piece,
                    square,
                    up_square,
                    (move_dist - k) as nat,
                ) == push_target,
            decreases move_dist - k, if done { 0int } else { 1int },
        {
            let ghost prev = up_square;
            let ghost rest: nat = (move_dist - k) as nat;
            if !up_square.apply_dir(dir) || self.piece_at(up_square).is_some() {
                proof {
                    assert(pawn_push_walk(self@, piece, square, prev, rest) =~= Seq::empty());
                    assert(list@ =~= list@ + Seq::<PieceMove>::empty());
                }
                done = true;
            } else {
                list.push(PieceMove::Piece {
                    piece: piece.kind,
                    from: square,
                    to: up_square,
                    capture: None,
                    promotion: None,
                });
                proof {
                    assert(pawn_push_walk(self@, piece, square, prev, rest) =~= seq![
                        ray_move(piece.kind, square, up_square, None),
                    ] + pawn_push_walk(self@, piece, square, up_square, (rest - 1) as nat));
                    assert(list@ + pawn_push_walk(
                        self@,
                        piece,
                        square,
                        up_square,
                        (rest - 1) as nat,
                    ) =~= push_target);
                }
                k += 1;
            }
        }
        proof {
            if !done {
                assert(pawn_push_walk(self@, piece, square, up_square, 0nat) =~= Seq::empty());
            }
            assert(list@ =~= push_target);
        }
    }

    /// Appends the four promotion pushes of the pawn on `square`, when it
    /// stands one step before the far rank and that step is free.
    fn pawn_promotions(&self, piece: Piece, square: Square, list: &mut Vec<PieceMove>)
        requires
            self@.wf(),
            self@.at(square) == Some(piece),
        ensures
            final(list)@ == old(list)@ + pawn_promo_part(self@, piece, square),
    {
        let (to_promotion, dir): (u8, Direction) = match piece.side {
            Side::White => (1, Direction::Up),
            Side::Black => (6, Direction::Down),
        };
        if square.y() == to_promotion {
            proof {
                assert(square.spec_add_dir(dir) is Some);
            }
            let promotion_square = square.add_dir(dir).unwrap();
            if self.piece_at(promotion_square).is_none() {
                list.push(PieceMove::Piece {
                    piece: piece.kind,
                    from: square,
                    to: promotion_square,
                    capture: None,
                    promotion: Some(PieceKind::Rook),
                });
                list.push(PieceMove::Piece {
                    piece: piece.kind,
                    from: square,
                    to: promotion_square,
                    capture: None,
                    promotion: Some(PieceKind::Knight),
                });
                list.push(PieceMove::Piece {
                    piece: piece.kind,
                    from: square,
                    to: promotion_square,
                    capture: None,
                    promotion: Some(PieceKind::Bishop),
                });
                list.push(PieceMove::Piece {
                    piece: piece.kind,
                    from: square,
                    to: promotion_square,
                    capture: None,
                    promotion: Some(PieceKind::Queen),
                });
            }
        }
        proof {
            assert(list@ =~= old(list)@ + pawn_promo_part(self@, piece, square));
        }
    }

    /// Appends the diagonal capture of the pawn on `square` along `dir`,
    /// if an enemy non-duck piece stands there.
    fn pawn_take(&self, piece: Piece, square: Square, dir: Direction, list: &mut Vec<PieceMove>)
        requires
            self@.wf(),
            self@.at(square) == Some(piece),
        ensures
            final(list)@ == old(list)@ + pawn_take_one(self@, piece, square, dir),
    {
        if let Some(new_square) = square.add_dir(dir) {
            if let Some(eat_piece) = self.piece_at(new_square) {
                if Self::can_eat_piece(eat_piece, piece.side) {
                    list.push(PieceMove::Piece {
                        piece: piece.kind,
                        from: square,
                        to: new_square,
                        capture: Some(eat_piece.kind),
                        promotion: None,
                    });
                }
            }
        }
        proof {
            assert(list@ =~= old(list)@ + pawn_take_one(self@, piece, square, dir));
        }
    }

    /// Appends the en-passant capture of the pawn on `square`, when the
    /// target lies beside it on the same rank row.
    fn pawn_en_passant(&self, piece: Piece, square: Square, list: &mut Vec<PieceMove>)
        requires
            self@.wf(),
            self@.at(square) == Some(piece),
        ensures
            final(list)@ == old(list)@ + pawn_ep_part(self@, piece, square),
    {
        let dir: Direction = match piece.side {
            Side::White => Direction::Up,
            Side::Black => Direction::Down,
        };
        if let Some(en_passant_square) = self.en_passant {
            let same_rank = en_passant_square.y() == square.y();
            let sx = square.x();
            let ex = en_passant_square.x();
            let beside = (if sx >= ex {
                sx - ex
            } else {
                ex - sx
            }) == 1;
            if same_rank && beside {
                let mut new_square = en_passant_square;
                new_square.apply_dir(dir);
                if self.piece_at(new_square).is_none() {
                    list.push(PieceMove::EnPassant { from: square, to: new_square });
                }
            }
        }
        proof {
            assert(list@ =~= old(list)@ + pawn_ep_part(self@, piece, square));
        }
    }

    /// Appends every move of the piece kind `kind` standing on `square`;
    /// the phase must still expect a piece move, and the duck has no
    /// moves.
    pub fn available_piece_moves(
        &self,
        piece: PieceKind,
        square: Square,
        list: &mut Vec<PieceMove>,
    )
        requires
            self@.wf(),
            !self@.moved_piece,
            self@.at(square) is Some,
            piece != PieceKind::Duck,
        ensures
            final(list)@ == old(list)@ + piece_moves_at(self@, piece, square),
    {
        match piece {
            PieceKind::Rook | PieceKind::Bishop | PieceKind::Queen => {
                let dirs = piece.directions();
                self.available_moves_by_dir(square, dirs.as_slice(), false, list);
            },
            PieceKind::King => {
                let dirs = piece.directions();
                self.available_moves_by_dir(square, dirs.as_slice(), true, list);
                self.available_castle_moves(square, list);
                proof {
                    assert(list@ =~= old(list)@ + piece_moves_at(self@, piece, square));
                }
            },
            PieceKind::Pawn => {
                self.available_pawn_moves(square, list);
            },
            PieceKind::Knight => {
                self.available_knight_moves(square, list);
            },
            PieceKind::Duck => {},
        }
    }

    /// Appends every legal duck destination: every empty square, in
    /// board order.
    #[verifier::loop_isolation(false)]
    pub fn available_duck_squares(&self, list: &mut Vec<Square>)
        requires
            self@.wf(),
            self@.moved_piece,
        ensures
            final(list)@ == old(list)@ + duck_squares(self@),
    {
        let mut i: usize = 0;
        while i < 64
            invariant
                i <= 64,
                list@ == old(list)@ + empty_squares_upto(self@, i as int),
            decreases 64 - i,
        {
            let square = Square::from_u8(i as u8);
            if self.piece_at(square).is_none() {
                list.push(square);
            }
            proof {
                assert(list@ =~= old(list)@ + empty_squares_upto(self@, i as int + 1));
            }
            i += 1;
        }
    }

    /// Fills `list` with the pruned duck destinations: the empty squares
    /// next to at least one piece (see [`reasonable_squares`]).  Used by
    /// the search only; move validation accepts any empty square.
    #[verifier::loop_isolation(false)]
    pub fn reasonable_duck_squares(&self, list: &mut Vec<Square>)
        requires
            self@.wf(),
            self@.moved_piece,
            old(list)@.len() == 0,
        ensures
            final(list)@ == reasonable_squares(self@),
    {
        let mut occupied = BitBoard::new();

        let mut i: usize = 0;
        while i < 64
            invariant
                i <= 64,
                forall|j: int|
                    0 <= j < 64 ==> occupied.spec_is_set(j) == (j < i && piece_occupied(
                        self@,
                        j,
                    )),
            decreases 64 - i,
        {
            let square = Square::from_u8(i as u8);
            if self.piece_at(square).is_some() {
                occupied.set(square);
            }
            i += 1;
        }

        let mut i: usize = 0;
        while i < 64
            invariant
                i <= 64,
                list@ == reasonable_upto(self@, i as int),
            decreases 64 - i,
        {
            let square = Square::from_u8(i as u8);
            proof {
                lemma_neighbor_bridge(self@, occupied, square, 8);
            }
            if self.piece_at(square).is_none() && has_neighbor(square, occupied) {
                list.push(square);
            }
            proof {
                assert(list@ =~= reasonable_upto(self@, i as int + 1));
            }
            i += 1;
        }
    }
}

/// Concatenation of five parts may be built step by step.
proof fn lemma_concat_five<T>(o: Seq<T>, a: Seq<T>, b: Seq<T>, c: Seq<T>, d: Seq<T>, e: Seq<T>)
    ensures
        o + a + b + c + d + e == o + (a + b + c + d + e),
{
    assert(o + a + b + c + d + e =~= o + (a + b + c + d + e));
}

/// Over a bit set that holds exactly the occupied cells, the neighbor
/// test of the bit set and the neighbor test of the board agree.
proof fn lemma_neighbor_bridge(bv: BoardV, bb: BitBoard, s: Square, n: int)
    requires
        bv.wf(),
        forall|j: int| 0 <= j < 64 ==> bb.spec_is_set(j) == piece_occupied(bv, j),
        0 <= n <= 8,
    ensures
        neighbor_upto(bb, s, n) == occupied_neighbor_upto(bv, s, n),
    decreases n,
{
    broadcast use crate::square::lemma_idx_range;

    if n > 0 {
        lemma_neighbor_bridge(bv, bb, s, n - 1);
    }
}

/// A square is among `empty_squares_upto(bv, n)` exactly when its index
/// is below `n` and its cell is empty.
pub proof fn lemma_duck_squares_contains(bv: BoardV, n: int, s: Square)
    requires
        bv.wf(),
        0 <= n <= 64,
    ensures
        empty_squares_upto(bv, n).contains(s) <==> (s.idx() < n && bv.cells[s.idx()] is None),
    decreases n,
{
    broadcast use vstd::seq_lib::lemma_seq_concat_contains_all_elements;
    broadcast use vstd::seq_lib::lemma_seq_empty_contains_nothing;
    broadcast use crate::square::lemma_idx_range;

    if n > 0 {
        lemma_duck_squares_contains(bv, n - 1, s);
        crate::square::lemma_square_of_idx(n - 1);
        crate::square::lemma_idx_square_of(s);
        if bv.cells[n - 1] is None {
            assert(seq![square_of(n - 1)][0] == square_of(n - 1));
            assert(seq![square_of(n - 1)].contains(square_of(n - 1)));
            assert(seq![square_of(n - 1)].contains(s) <==> s == square_of(n - 1));
        }
    }
}

/// A square is among `reasonable_upto(bv, n)` exactly when its index is
/// below `n`, its cell is empty, and some neighbor holds a piece.
pub proof fn lemma_reasonable_contains(bv: BoardV, n: int, s: Square)
    requires
        bv.wf(),
        0 <= n <= 64,
    ensures
        reasonable_upto(bv, n).contains(s) <==> (s.idx() < n && bv.cells[s.idx()] is None
            && has_piece_neighbor(bv, s)),
    decreases n,
{
    broadcast use vstd::seq_lib::lemma_seq_concat_contains_all_elements;
    broadcast use vstd::seq_lib::lemma_seq_empty_contains_nothing;
    broadcast use crate::square::lemma_idx_range;

    if n > 0 {
        lemma_reasonable_contains(bv, n - 1, s);
        crate::square::lemma_square_of_idx(n - 1);
        crate::square::lemma_idx_square_of(s);
        if bv.cells[n - 1] is None && has_piece_neighbor(bv, square_of(n - 1)) {
            assert(seq![square_of(n - 1)][0] == square_of(n - 1));
            assert(seq![square_of(n - 1)].contains(square_of(n - 1)));
            assert(seq![square_of(n - 1)].contains(s) <==> s == square_of(n - 1));
        }
    }
}

/// The pruned duck destinations are a subset of the legal ones: every
/// square [`reasonable_squares`] offers is also offered by
/// [`duck_squares`].
pub proof fn lemma_reasonable_subset_of_available(bv: BoardV, s: Square)
    requires
        bv.wf(),
        reasonable_squares(bv).contains(s),
    ensures
        duck_squares(bv).contains(s),
{
    lemma_reasonable_contains(bv, 64, s);
    lemma_duck_squares_contains(bv, 64, s);
}

/// The moves of the piece on cell `i`, when it belongs to the side to
/// move; an empty or opposing cell contributes nothing.
pub open spec fn square_moves(bv: BoardV, i: int) -> Seq<PieceMove> {
    match bv.cells[i] {
        Some(p) => if p.side == bv.next_move {
            piece_moves_at(bv, p.kind, square_of(i))
        } else {
            Seq::empty()
        },
        None => Seq::empty(),
    }
}

/// The moves of the first `n` cells, concatenated in board order.
pub open spec fn moves_upto(bv: BoardV, n: int) -> Seq<PieceMove>
    decreases n,
{
    if n <= 0 {
        Seq::empty()
    } else {
        moves_upto(bv, n - 1) + square_moves(bv, n - 1)
    }
}

/// Every move of the side whose turn it is, in board order of the moving
/// piece.
pub open spec fn all_piece_moves(bv: BoardV) -> Seq<PieceMove> {
    moves_upto(bv, 64)
}

/// What holds of every move generated for the piece on `from`: the
/// origin is `from`; a plain move carries the board kind, its capture
/// field matches the target cell, and a promotion names a non-duck kind
/// over a free cell; an en-passant move has its target set, distinct
/// from the origin, and a free landing square; a castle stands on a
/// present king and non-duck rook, lands on free squares, and is backed
/// by the matching right.
pub open spec fn gen_move_ok(bv: BoardV, from: Square, m: PieceMove) -> bool {
    match m {
        PieceMove::Piece { piece, from: f, to, capture, promotion } => {
            &&& f == from
            &&& piece == bv.at(from).unwrap().kind
            &&& match promotion {
                Some(k) => !k.spec_is_duck() && bv.at(to) is None && capture is None,
                None => match capture {
                    None => bv.at(to) is None,
                    Some(k) => {
                        &&& bv.at(to) is Some
                        &&& spec_can_eat(bv.at(to).unwrap(), bv.at(from).unwrap().side)
                        &&& k == bv.at(to).unwrap().kind
                    },
                },
            }
        },
        PieceMove::EnPassant { from: f, to } => {
            &&& f == from
            &&& bv.en_passant is Some
            &&& bv.en_passant.unwrap().idx() != from.idx()
            &&& bv.at(to) is None
        },
        PieceMove::Castle { from_king, to_king, from_rook, to_rook } => {
            let side = bv.at(from).unwrap().side;
            let y = castle_row(side);
            &&& from_king == from
            &&& bv.at(from_king) is Some
            &&& bv.at(from_rook) is Some
            &&& !bv.at(from_rook).unwrap().kind.spec_is_duck()
            &&& bv.at(to_king) is None
            &&& bv.at(to_rook) is None
            &&& ((m == long_castle_move(from, y) && bv.rights_of(side).0) || (m
                == short_castle_move(from, y) && bv.rights_of(side).1))
        },
    }
}

/// What holds of every move in [`all_piece_moves`]: some cell of the
/// side to move holds its moving piece and the move passes
/// [`gen_move_ok`] for that origin.
pub open spec fn listed_move_ok(bv: BoardV, m: PieceMove) -> bool {
    exists|s: Square|
        {
            &&& #[trigger] gen_move_ok(bv, s, m)
            &&& bv.at(s) is Some
            &&& bv.at(s).unwrap().side == bv.next_move
        }
}

proof fn lemma_walk_moves_ok(
    bv: BoardV,
    mover: Piece,
    orig: Square,
    cur: Square,
    dir: Direction,
    fuel: nat,
    m: PieceMove,
)
    requires
        bv.wf(),
        bv.at(orig) is Some,
        mover == bv.at(orig).unwrap(),
        walk_moves(bv, mover, orig, cur, dir, fuel).contains(m),
    ensures
        gen_move_ok(bv, orig, m),
    decreases fuel,
{
    broadcast use vstd::seq_lib::lemma_seq_concat_contains_all_elements;
    broadcast use vstd::seq_lib::lemma_seq_empty_contains_nothing;
    broadcast use crate::square::lemma_idx_range;

    if fuel > 0 {
        match cur.spec_add_dir(dir) {
            None => {},
            Some(n) => {
                match bv.at(n) {
                    None => {
                        let head = seq![ray_move(mover.kind, orig, n, None)];
                        assert(head[0] == ray_move(mover.kind, orig, n, None));
                        if head.contains(m) {
                            assert(m == ray_move(mover.kind, orig, n, None));
                        } else {
                            lemma_walk_moves_ok(bv, mover, orig, n, dir, (fuel - 1) as nat, m);
                        }
                    },
                    Some(p) => {
                        if spec_can_eat(p, mover.side) {
                            let head = seq![ray_move(mover.kind, orig, n, Some(p.kind))];
                            assert(head[0] == ray_move(mover.kind, orig, n, Some(p.kind)));
                            assert(m == ray_move(mover.kind, orig, n, Some(p.kind)));
                        }
                    },
                }
            },
        }
    }
}

proof fn lemma_dir_moves_ok(
    bv: BoardV,
    mover: Piece,
    from: Square,
    dirs: Seq<Direction>,
    fuel: nat,
    n: int,
    m: PieceMove,
)
    requires
        bv.wf(),
        bv.at(from) is Some,
        mover == bv.at(from).unwrap(),
        dir_moves_upto(bv, mover, from, dirs, fuel, n).contains(m),
    ensures
        gen_move_ok(bv, from, m),
    decreases n,
{
    broadcast use vstd::seq_lib::lemma_seq_concat_contains_all_elements;
    broadcast use vstd::seq_lib::lemma_seq_empty_contains_nothing;

    if n > 0 {
        if dir_moves_upto(bv, mover, from, dirs, fuel, n - 1).contains(m) {
            lemma_dir_moves_ok(bv, mover, from, dirs, fuel, n - 1, m);
        } else {
            lemma_walk_moves_ok(bv, mover, from, from, dirs[n - 1], fuel, m);
        }
    }
}

proof fn lemma_castle_moves_ok(bv: BoardV, from: Square, m: PieceMove)
    requires
        bv.wf(),
        bv.at(from) is Some,
        castle_moves(bv, from).contains(m),
    ensures
        gen_move_ok(bv, from, m),
{
    broadcast use vstd::seq_lib::lemma_seq_concat_contains_all_elements;
    broadcast use vstd::seq_lib::lemma_seq_empty_contains_nothing;
    broadcast use crate::square::lemma_idx_range;

    let side = bv.at(from).unwrap().side;
    let y = castle_row(side);
    crate::square::lemma_square_of_idx(y * 8);
    crate::square::lemma_square_of_idx(y * 8 + 1);
    crate::square::lemma_square_of_idx(y * 8 + 2);
    crate::square::lemma_square_of_idx(y * 8 + 3);
    crate::square::lemma_square_of_idx(y * 8 + 5);
    crate::square::lemma_square_of_idx(y * 8 + 6);
    crate::square::lemma_square_of_idx(y * 8 + 7);
    let long = seq![long_castle_move(from, y)];
    let short = seq![short_castle_move(from, y)];
    assert(long[0] == long_castle_move(from, y));
    assert(short[0] == short_castle_move(from, y));
}

proof fn lemma_knight_moves_ok(bv: BoardV, mover: Piece, from: Square, n: int, m: PieceMove)
    requires
        bv.wf(),
        bv.at(from) is Some,
        mover == bv.at(from).unwrap(),
        knight_moves_upto(bv, mover, from, n).contains(m),
    ensures
        gen_move_ok(bv, from, m),
    decreases n,
{
    broadcast use vstd::seq_lib::lemma_seq_concat_contains_all_elements;
    broadcast use vstd::seq_lib::lemma_seq_empty_contains_nothing;
    broadcast use crate::square::lemma_idx_range;

    if n > 0 {
        if knight_moves_upto(bv, mover, from, n - 1).contains(m) {
            lemma_knight_moves_ok(bv, mover, from, n - 1, m);
        } else {
            let d = knight_directions()[n - 1];
            match from.spec_add_dir(d) {
                None => {},
                Some(nn) => {
                    match bv.at(nn) {
                        Some(p) => {
                            if spec_can_eat(p, mover.side) {
                                assert(knight_one(bv, mover, from, d)[0] == ray_move(
                                    mover.kind,
                                    from,
                                    nn,
                                    Some(p.kind),
                                ));
                            }
                        },
                        None => {
                            assert(knight_one(bv, mover, from, d)[0] == ray_move(
                                mover.kind,
                                from,
                                nn,
                                None,
                            ));
                        },
                    }
                },
            }
        }
    }
}

proof fn lemma_push_walk_ok(
    bv: BoardV,
    mover: Piece,
    from: Square,
    cur: Square,
    fuel: nat,
    m: PieceMove,
)
    requires
        bv.wf(),
        bv.at(from) is Some,
        mover == bv.at(from).unwrap(),
        pawn_push_walk(bv, mover, from, cur, fuel).contains(m),
    ensures
        gen_move_ok(bv, from, m),
    decreases fuel,
{
    broadcast use vstd::seq_lib::lemma_seq_concat_contains_all_elements;
    broadcast use vstd::seq_lib::lemma_seq_empty_contains_nothing;
    broadcast use crate::square::lemma_idx_range;

    if fuel > 0 {
        match cur.spec_add_dir(pawn_dir(mover.side)) {
            None => {},
            Some(n) => {
                if bv.at(n) is None {
                    let head = seq![ray_move(mover.kind, from, n, None)];
                    assert(head[0] == ray_move(mover.kind, from, n, None));
                    if head.contains(m) {
                        assert(m == ray_move(mover.kind, from, n, None));
                    } else {
                        lemma_push_walk_ok(bv, mover, from, n, (fuel - 1) as nat, m);
                    }
                }
            },
        }
    }
}

#[verifier::rlimit(60)]
proof fn lemma_pawn_moves_ok(bv: BoardV, from: Square, m: PieceMove)
    requires
        bv.wf(),
        bv.at(from) is Some,
        pawn_moves(bv, from).contains(m),
    ensures
        gen_move_ok(bv, from, m),
{
    broadcast use vstd::seq_lib::lemma_seq_concat_contains_all_elements;
    broadcast use vstd::seq_lib::lemma_seq_empty_contains_nothing;
    broadcast use crate::square::lemma_idx_range;

    let mover = bv.at(from).unwrap();
    let takes = pawn_take_dirs(mover.side);
    if pawn_push_part(bv, mover, from).contains(m) {
        lemma_push_walk_ok(
            bv,
            mover,
            from,
            from,
            if from.idx() / 8 == pawn_start_row(mover.side) {
                2nat
            } else {
                1nat
            },
            m,
        );
    } else if pawn_promo_part(bv, mover, from).contains(m) {
        let psq = from.spec_add_dir(pawn_dir(mover.side)).unwrap();
        let promos = pawn_promo_part(bv, mover, from);
        assert(promos[0] == promo_move(mover, from, psq, PieceKind::Rook));
        assert(promos[1] == promo_move(mover, from, psq, PieceKind::Knight));
        assert(promos[2] == promo_move(mover, from, psq, PieceKind::Bishop));
        assert(promos[3] == promo_move(mover, from, psq, PieceKind::Queen));
        let i = choose|i: int| 0 <= i < promos.len() && promos[i] == m;
        assert(gen_move_ok(bv, from, m));
    } else if pawn_take_one(bv, mover, from, takes.0).contains(m) || pawn_take_one(
        bv,
        mover,
        from,
        takes.1,
    ).contains(m) {
        let d = if pawn_take_one(bv, mover, from, takes.0).contains(m) {
            takes.0
        } else {
            takes.1
        };
        match from.spec_add_dir(d) {
            None => {},
            Some(n) => {
                match bv.at(n) {
                    None => {},
                    Some(p) => {
                        if spec_can_eat(p, mover.side) {
                            assert(pawn_take_one(bv, mover, from, d)[0] == ray_move(
                                mover.kind,
                                from,
                                n,
                                Some(p.kind),
                            ));
                        }
                    },
                }
            },
        }
    } else {
        assert(pawn_ep_part(bv, mover, from).contains(m));
        let eps = bv.en_passant.unwrap();
        let to = match eps.spec_add_dir(pawn_dir(mover.side)) {
            Some(n) => n,
            None => eps,
        };
        assert(pawn_ep_part(bv, mover, from)[0] == PieceMove::EnPassant { from, to });
        assert(m == PieceMove::EnPassant { from, to });
        assert(eps.idx() / 8 == from.idx() / 8 && (eps.idx() % 8 - from.idx() % 8 == 1 || from.idx()
            % 8 - eps.idx() % 8 == 1));
        assert(eps.idx() != from.idx());
    }
}

proof fn lemma_piece_moves_at_ok(bv: BoardV, kind: PieceKind, from: Square, m: PieceMove)
    requires
        bv.wf(),
        bv.at(from) is Some,
        piece_moves_at(bv, kind, from).contains(m),
    ensures
        gen_move_ok(bv, from, m),
{
    broadcast use vstd::seq_lib::lemma_seq_concat_contains_all_elements;
    broadcast use vstd::seq_lib::lemma_seq_empty_contains_nothing;

    let mover = bv.at(from).unwrap();
    match kind {
        PieceKind::Rook | PieceKind::Bishop | PieceKind::Queen => {
            lemma_dir_moves_ok(
                bv,
                mover,
                from,
                kind.spec_directions(),
                8,
                kind.spec_directions().len() as int,
                m,
            );
        },
        PieceKind::King => {
            if dir_moves(bv, mover, from, kind.spec_directions(), 1).contains(m) {
                lemma_dir_moves_ok(
                    bv,
                    mover,
                    from,
                    kind.spec_directions(),
                    1,
                    kind.spec_directions().len() as int,
                    m,
                );
            } else {
                lemma_castle_moves_ok(bv, from, m);
            }
        },
        PieceKind::Pawn => {
            lemma_pawn_moves_ok(bv, from, m);
        },
        PieceKind::Knight => {
            lemma_knight_moves_ok(bv, mover, from, 8, m);
        },
        PieceKind::Duck => {},
    }
}

proof fn lemma_moves_upto_ok(bv: BoardV, n: int, m: PieceMove)
    requires
        bv.wf(),
        0 <= n <= 64,
        moves_upto(bv, n).contains(m),
    ensures
        listed_move_ok(bv, m),
    decreases n,
{
    broadcast use vstd::seq_lib::lemma_seq_concat_contains_all_elements;
    broadcast use vstd::seq_lib::lemma_seq_empty_contains_nothing;

    if n > 0 {
        if moves_upto(bv, n - 1).contains(m) {
            lemma_moves_upto_ok(bv, n - 1, m);
        } else {
            crate::square::lemma_square_of_idx(n - 1);
            match bv.cells[n - 1] {
                Some(p) => {
                    lemma_piece_moves_at_ok(bv, p.kind, square_of(n - 1), m);
                    assert(gen_move_ok(bv, square_of(n - 1), m));
                },
                None => {},
            }
        }
    }
}

/// Every generated move passes [`gen_move_ok`] at an origin square that
/// holds a piece of the side to move.
pub proof fn lemma_all_moves_ok(bv: BoardV, m: PieceMove)
    requires
        bv.wf(),
        all_piece_moves(bv).contains(m),
    ensures
        listed_move_ok(bv, m),
{
    lemma_moves_upto_ok(bv, 64, m);
}

/// Every generated move is applicable: [`Board::apply_piece_move`]
/// accepts it.
pub proof fn lemma_generated_applicable(bv: BoardV, m: PieceMove)
    requires
        bv.wf(),
        all_piece_moves(bv).contains(m),
    ensures
        crate::types::piece_move_applicable(bv, m),
{
    broadcast use crate::square::lemma_idx_range;

    lemma_all_moves_ok(bv, m);
    let s = choose|s: Square|
        {
            &&& #[trigger] gen_move_ok(bv, s, m)
            &&& bv.at(s) is Some
            &&& bv.at(s).unwrap().side == bv.next_move
        };
    match m {
        PieceMove::EnPassant { from, to } => {
            let eps = bv.en_passant.unwrap();
            assert(bv.cells.update(eps.idx(), None)[from.idx()] == bv.cells[from.idx()]);
        },
        _ => {},
    }
}

proof fn lemma_walk_moves_len(
    bv: BoardV,
    mover: Piece,
    orig: Square,
    cur: Square,
    dir: Direction,
    fuel: nat,
)
    ensures
        walk_moves(bv, mover, orig, cur, dir, fuel).len() <= fuel,
    decreases fuel,
{
    if fuel > 0 {
        match cur.spec_add_dir(dir) {
            Some(n) => {
                lemma_walk_moves_len(bv, mover, orig, n, dir, (fuel - 1) as nat);
            },
            None => {},
        }
    }
}

proof fn lemma_dir_moves_len(
    bv: BoardV,
    mover: Piece,
    from: Square,
    dirs: Seq<Direction>,
    fuel: nat,
    n: int,
)
    requires
        0 <= n,
    ensures
        dir_moves_upto(bv, mover, from, dirs, fuel, n).len() <= fuel * n,
    decreases n,
{
    if n > 0 {
        lemma_dir_moves_len(bv, mover, from, dirs, fuel, n - 1);
        lemma_walk_moves_len(bv, mover, from, from, dirs[n - 1], fuel);
        assert(fuel * n == fuel * (n - 1) + fuel) by (nonlinear_arith);
    }
}

proof fn lemma_knight_moves_len(bv: BoardV, mover: Piece, from: Square, n: int)
    requires
        0 <= n,
    ensures
        knight_moves_upto(bv, mover, from, n).len() <= n,
    decreases n,
{
    if n > 0 {
        lemma_knight_moves_len(bv, mover, from, n - 1);
    }
}

proof fn lemma_push_walk_len(bv: BoardV, mover: Piece, from: Square, cur: Square, fuel: nat)
    ensures
        pawn_push_walk(bv, mover, from, cur, fuel).len() <= fuel,
    decreases fuel,
{
    if fuel > 0 {
        match cur.spec_add_dir(pawn_dir(mover.side)) {
            Some(n) => {
                lemma_push_walk_len(bv, mover, from, n, (fuel - 1) as nat);
            },
            None => {},
        }
    }
}

/// No square offers more than 64 moves.
pub proof fn lemma_piece_moves_at_len(bv: BoardV, kind: PieceKind, from: Square)
    ensures
        piece_moves_at(bv, kind, from).len() <= 64,
{
    let mover = bv.at(from).unwrap();
    match kind {
        PieceKind::Rook | PieceKind::Bishop | PieceKind::Queen => {
            let dirs = kind.spec_directions();
            assert(dirs.len() <= 8);
            lemma_dir_moves_len(bv, mover, from, dirs, 8, dirs.len() as int);
            assert(dir_moves(bv, mover, from, dirs, 8).len() <= 8 * dirs.len());
        },
        PieceKind::King => {
            let dirs = kind.spec_directions();
            assert(dirs.len() == 8);
            lemma_dir_moves_len(bv, mover, from, dirs, 1, dirs.len() as int);
            assert(dir_moves(bv, mover, from, dirs, 1).len() <= 8);
        },
        PieceKind::Pawn => {
            lemma_push_walk_len(
                bv,
                mover,
                from,
                from,
                if from.idx() / 8 == pawn_start_row(mover.side) {
                    2nat
                } else {
                    1nat
                },
            );
        },
        PieceKind::Knight => {
            lemma_knight_moves_len(bv, mover, from, 8);
        },
        PieceKind::Duck => {},
    }
}

/// The whole move list stays within 64 moves per cell.
pub proof fn lemma_moves_upto_len(bv: BoardV, n: int)
    requires
        0 <= n,
    ensures
        moves_upto(bv, n).len() <= 64 * n,
    decreases n,
{
    if n > 0 {
        lemma_moves_upto_len(bv, n - 1);
        match bv.cells[n - 1] {
            Some(p) => {
                lemma_piece_moves_at_len(bv, p.kind, square_of(n - 1));
            },
            None => {},
        }
    }
}

/// At most one pruned duck square per cell.
pub proof fn lemma_reasonable_len(bv: BoardV, n: int)
    requires
        0 <= n,
    ensures
        reasonable_upto(bv, n).len() <= n,
    decreases n,
{
    if n > 0 {
        lemma_reasonable_len(bv, n - 1);
    }
}

/// A castle is offered only while the matching right stands: among the
/// generated moves, a castle landing the king in file 2 needs the long
/// right of the side to move, one landing it in file 6 the short right.
/// Combined with [`crate::types::lemma_castle_rights_monotone`], castle
/// candidates disappear for good once the king or the matching rook has
/// moved, even if the piece later returns to its origin square.
pub proof fn lemma_castle_requires_right(bv: BoardV, m: PieceMove)
    requires
        bv.wf(),
        all_piece_moves(bv).contains(m),
        m is Castle,
    ensures
        (m->Castle_to_king).idx() % 8 == 2 ==> bv.rights_of(bv.next_move).0,
        (m->Castle_to_king).idx() % 8 == 6 ==> bv.rights_of(bv.next_move).1,
{
    broadcast use crate::square::lemma_idx_range;

    lemma_all_moves_ok(bv, m);
    let s = choose|s: Square|
        {
            &&& #[trigger] gen_move_ok(bv, s, m)
            &&& bv.at(s) is Some
            &&& bv.at(s).unwrap().side == bv.next_move
        };
    let side = bv.at(s).unwrap().side;
    let y = castle_row(side);
    crate::square::lemma_square_of_idx(y * 8 + 2);
    crate::square::lemma_square_of_idx(y * 8 + 6);
}

/// An en-passant capture removes the originally pushed pawn from the
/// en-passant square — not any occupant of the (empty) landing square —
/// and moves the capturing pawn from its origin onto the landing
/// square.  The landing square must differ from the target, as it does
/// whenever the target square was reached by a double push.
pub proof fn lemma_en_passant_capture(bv: BoardV, m: PieceMove)
    requires
        bv.wf(),
        all_piece_moves(bv).contains(m),
        m is EnPassant,
        (m->EnPassant_to).idx() != bv.en_passant.unwrap().idx(),
    ensures
        ({
            let after = spec_apply_piece_move(bv, m);
            &&& bv.en_passant is Some
            &&& after.cells[bv.en_passant.unwrap().idx()] is None
            &&& after.cells[(m->EnPassant_from).idx()] is None
            &&& after.at(m->EnPassant_to) == bv.at(m->EnPassant_from)
        }),
{
    broadcast use crate::square::lemma_idx_range;

    lemma_all_moves_ok(bv, m);
    let s = choose|s: Square|
        {
            &&& #[trigger] gen_move_ok(bv, s, m)
            &&& bv.at(s) is Some
            &&& bv.at(s).unwrap().side == bv.next_move
        };
    let from = m->EnPassant_from;
    let to = m->EnPassant_to;
    assert(bv.at(from) is Some);
    assert(bv.at(to) is None);
    assert(from.idx() != to.idx());
}

/// A generated move never creates, destroys or moves the duck: the duck
/// cells after [`spec_apply_piece_move`] are those before.
pub proof fn lemma_piece_move_keeps_duck(bv: BoardV, m: PieceMove)
    requires
        bv.wf(),
        bv.no_own_duck(),
        crate::types::ep_not_duck(bv),
        all_piece_moves(bv).contains(m),
    ensures
        forall|i: int|
            0 <= i < 64 ==> crate::types::duck_at(spec_apply_piece_move(bv, m), i)
                == crate::types::duck_at(bv, i),
{
    broadcast use crate::square::lemma_idx_range;

    lemma_all_moves_ok(bv, m);
    let s = choose|s: Square|
        {
            &&& #[trigger] gen_move_ok(bv, s, m)
            &&& bv.at(s) is Some
            &&& bv.at(s).unwrap().side == bv.next_move
        };
    let after = spec_apply_piece_move(bv, m);
    assert forall|i: int| 0 <= i < 64 implies crate::types::duck_at(after, i)
        == crate::types::duck_at(bv, i) by {
        // every cell a move writes is either emptied, or receives a
        // non-duck piece; gen_move_ok rules the duck out of all of them
        match m {
            PieceMove::Piece { .. } => {},
            PieceMove::EnPassant { .. } => {},
            PieceMove::Castle { .. } => {},
        }
    }
}

} // verus!
