//! The textual move list format: `<n>. <white> <black>` repeated, each
//! move token carrying a trailing two-character duck destination, ended
//! by a result token or the end of input.
//!
//! Parsing is specified byte by byte: [`spec_parse_moves`] is the
//! grammar, and [`parse_moves`] returns exactly what it says, for every
//! input.

use vstd::prelude::*;
use vstd::string::StringSliceAdditionalSpecFns;

use crate::square::{square_of, Square};
use crate::types::PieceKind;

verus! {

/// A parse failure.
#[derive(Debug, Clone, PartialEq, Eq, Structural)]
pub enum Error {
    /// A move number (digits then a dot) was expected.
    NumberExpected,
    /// A move number did not match its position in the list.
    MismatchNumber,
    /// A move token was malformed or incomplete.
    IncorrectMove,
    /// Two characters naming a square were expected.
    ExpectedSquare,
    /// An uppercase letter that names no piece.
    UnknownPiece(u8),
}

/// One parsed move token: the piece move as written, and the duck
/// destination.
#[derive(Debug, Clone, PartialEq, Eq, Structural)]
pub struct PgnMove {
    pub piece: PgnPieceMove,
    pub duck: Square,
}

/// The written form of a piece move: either a concrete move with an
/// optional disambiguating origin, or a castle marker.
#[derive(Debug, Clone, PartialEq, Eq, Structural)]
pub enum PgnPieceMove {
    Piece { piece: PieceKind, from: Option<Square>, to: Square, capture: bool },
    Castle { long: bool },
}

/// ASCII whitespace, as the tokenizer skips it.
pub open spec fn is_ws(b: u8) -> bool {
    b == 32 || b == 9 || b == 10 || b == 12 || b == 13
}

/// An ASCII decimal digit.
pub open spec fn is_digit(b: u8) -> bool {
    48 <= b <= 57
}

/// An ASCII letter or digit.
pub open spec fn is_alnum(b: u8) -> bool {
    is_digit(b) || (65 <= b <= 90) || (97 <= b <= 122)
}

/// A byte a move token may hold: a letter, a digit, or `-`.
pub open spec fn is_token_byte(b: u8) -> bool {
    is_alnum(b) || b == 45
}

/// The first position at or after `i` that holds no whitespace.
pub open spec fn skip_ws(s: Seq<u8>, i: int) -> int
    decreases s.len() - i,
{
    if 0 <= i < s.len() && is_ws(s[i]) {
        skip_ws(s, i + 1)
    } else {
        i
    }
}

/// The first position at or after `i` that holds no token byte.
pub open spec fn token_end(s: Seq<u8>, i: int) -> int
    decreases s.len() - i,
{
    if 0 <= i < s.len() && is_token_byte(s[i]) {
        token_end(s, i + 1)
    } else {
        i
    }
}

/// The first position at or after `i` that holds no digit.
pub open spec fn digits_end(s: Seq<u8>, i: int) -> int
    decreases s.len() - i,
{
    if 0 <= i < s.len() && is_digit(s[i]) {
        digits_end(s, i + 1)
    } else {
        i
    }
}

/// Skipping whitespace stays within `i ..= s.len()`.
pub proof fn lemma_skip_ws_bounds(s: Seq<u8>, i: int)
    requires
        0 <= i <= s.len(),
    ensures
        i <= skip_ws(s, i) <= s.len(),
    decreases s.len() - i,
{
    if i < s.len() && is_ws(s[i]) {
        lemma_skip_ws_bounds(s, i + 1);
    }
}

/// A token ends within `i ..= s.len()`.
pub proof fn lemma_token_end_bounds(s: Seq<u8>, i: int)
    requires
        0 <= i <= s.len(),
    ensures
        i <= token_end(s, i) <= s.len(),
    decreases s.len() - i,
{
    if i < s.len() && is_token_byte(s[i]) {
        lemma_token_end_bounds(s, i + 1);
    }
}

/// A digit run ends within `i ..= s.len()`.
pub proof fn lemma_digits_end_bounds(s: Seq<u8>, i: int)
    requires
        0 <= i <= s.len(),
    ensures
        i <= digits_end(s, i) <= s.len(),
    decreases s.len() - i,
{
    if i < s.len() && is_digit(s[i]) {
        lemma_digits_end_bounds(s, i + 1);
    }
}

/// The decimal value of the digit run `s[i..j)`.
pub open spec fn digits_value(s: Seq<u8>, i: int, j: int) -> int
    decreases j - i,
{
    if i >= j {
        0
    } else {
        digits_value(s, i, j - 1) * 10 + (s[j - 1] - 48)
    }
}

/// What two bytes name as a square: a file letter `a`–`h` and a rank
/// digit `1`–`8`, with rank 1 at the bottom of the grid.
pub open spec fn spec_parse_square(letter: u8, number: u8) -> Result<Square, Error> {
    if letter < 97 || letter >= 105 || number < 49 || number >= 57 {
        Err(Error::ExpectedSquare)
    } else {
        Ok(square_of((7 - (number - 49)) * 8 + (letter - 97)))
    }
}

/// Reads the square two bytes name, or rejects them.
pub fn parse_square(letter: u8, number: u8) -> (r: Result<Square, Error>)
    ensures
        r == spec_parse_square(letter, number),
{
    if letter < 97 || letter >= 105 || number < 49 || number >= 57 {
        return Err(Error::ExpectedSquare);
    }
    let rank: u8 = 7 - (number - 49);
    let file: u8 = letter - 97;
    Ok(Square::from_u8(rank * 8 + file))
}

/// What a move-number token at `i` parses to: its end position and
/// value, or a failure when digits are missing, the dot is missing, or
/// the value overflows the machine.
pub open spec fn spec_parse_number(s: Seq<u8>, i: int) -> Result<(int, int), Error> {
    let j = digits_end(s, i);
    if j == i {
        Err(Error::NumberExpected)
    } else if !(j < s.len() && s[j] == 46) {
        Err(Error::NumberExpected)
    } else if digits_value(s, i, j) > usize::MAX as int {
        Err(Error::NumberExpected)
    } else {
        Ok((j + 1, digits_value(s, i, j)))
    }
}

/// Reads a move number (digits then a dot) starting at `i`.
#[verifier::loop_isolation(false)]
pub fn parse_number(bytes: &[u8], i: usize) -> (r: Result<(usize, usize), Error>)
    requires
        i <= bytes@.len(),
    ensures
        (match (r, spec_parse_number(bytes@, i as int)) {
            (Ok((k, v)), Ok((ks, vs))) => k == ks && v == vs,
            (Err(e), Err(es)) => e == es,
            _ => false,
        }),
{
    proof {
        lemma_digits_end_bounds(bytes@, i as int);
    }
    let ghost s = bytes@;
    let mut j: usize = i;
    let mut val: usize = 0;
    let mut overflow = false;
    while j < bytes.len() && bytes[j] >= 48 && bytes[j] <= 57
        invariant
            i <= j <= bytes@.len(),
            digits_end(s, j as int) == digits_end(s, i as int),
            forall|k: int| i <= k < j ==> is_digit(s[k]),
            !overflow ==> val == digits_value(s, i as int, j as int),
            overflow ==> digits_value(s, i as int, j as int) > usize::MAX as int,
        decreases bytes@.len() - j,
    {
        let d = bytes[j] - 48;
        let ghost v = digits_value(s, i as int, j as int);
        proof {
            assert(digits_value(s, i as int, j as int + 1) == v * 10 + d);
        }
        if overflow || val > (usize::MAX - d as usize) / 10 {
            proof {
                if !overflow {
                    let m = (usize::MAX - d as usize) as int;
                    assert((m / 10) * 10 >= m - 9) by (nonlinear_arith)
                        requires
                            m >= 0,
                    ;
                    assert(val * 10 >= (m / 10 + 1) * 10) by (nonlinear_arith)
                        requires
                            val > m / 10,
                            val >= 0,
                            m >= 0,
                    ;
                }
                assert(v * 10 + d >= v) by (nonlinear_arith)
                    requires
                        v >= 0,
                        d >= 0,
                ;
            }
            overflow = true;
        } else {
            proof {
                let m = (usize::MAX - d as usize) as int;
                assert((m / 10) * 10 <= m) by (nonlinear_arith)
                    requires
                        m >= 0,
                ;
                assert(val * 10 <= (m / 10) * 10) by (nonlinear_arith)
                    requires
                        val <= m / 10,
                        val >= 0,
                        m >= 0,
                ;
            }
            val = val * 10 + d as usize;
        }
        j += 1;
    }
    proof {
        assert(digits_end(s, j as int) == j as int);
    }
    if j == i {
        return Err(Error::NumberExpected);
    }
    if !(j < bytes.len() && bytes[j] == 46) {
        return Err(Error::NumberExpected);
    }
    if overflow {
        return Err(Error::NumberExpected);
    }
    Ok((j + 1, val))
}

/// An ASCII uppercase letter.
pub open spec fn is_upper(b: u8) -> bool {
    65 <= b <= 90
}

/// An ASCII lowercase letter.
pub open spec fn is_lower_alpha(b: u8) -> bool {
    97 <= b <= 122
}

/// The piece an uppercase letter names.
pub open spec fn piece_of_letter(b: u8) -> Result<PieceKind, Error> {
    if b == 82 {
        Ok(PieceKind::Rook)
    } else if b == 78 {
        Ok(PieceKind::Knight)
    } else if b == 66 {
        Ok(PieceKind::Bishop)
    } else if b == 75 {
        Ok(PieceKind::King)
    } else if b == 81 {
        Ok(PieceKind::Queen)
    } else {
        Err(Error::UnknownPiece(b))
    }
}

/// What a plain (non-castle) move body parses to.  `rest` is the token
/// without its duck square, `duck` that square, and `j` the position
/// after the token.  The body is: an optional uppercase piece letter,
/// an optional one-character disambiguator, an optional `x`, and the
/// two-character destination.
pub open spec fn spec_parse_plain(rest: Seq<u8>, duck: Square, j: int) -> Result<
    (int, Option<PgnMove>),
    Error,
> {
    let piece_r = if is_upper(rest[0]) {
        piece_of_letter(rest[0])
    } else {
        Ok(PieceKind::Pawn)
    };
    let body = if is_upper(rest[0]) {
        rest.drop_first()
    } else {
        rest
    };
    match piece_r {
        Err(e) => Err(e),
        Ok(piece) => {
            if body.len() < 2 {
                Err(Error::IncorrectMove)
            } else {
                let sq0 = body[body.len() - 2];
                let sq1 = body[body.len() - 1];
                match spec_parse_square(sq0, sq1) {
                    Err(e) => Err(e),
                    Ok(to) => {
                        let pre = body.subrange(0, body.len() - 2);
                        let capture = pre.len() > 0 && pre.last() == 120;
                        let pre2 = if capture {
                            pre.drop_last()
                        } else {
                            pre
                        };
                        if pre2.len() == 1 {
                            let b = pre2[0];
                            if is_digit(b) {
                                match spec_parse_square(sq0, b) {
                                    Err(e) => Err(e),
                                    Ok(f) => Ok(
                                        (
                                            j,
                                            Some(
                                                PgnMove {
                                                    piece: PgnPieceMove::Piece {
                                                        piece,
                                                        from: Some(f),
                                                        to,
                                                        capture,
                                                    },
                                                    duck,
                                                },
                                            ),
                                        ),
                                    ),
                                }
                            } else if is_lower_alpha(b) {
                                match spec_parse_square(b, sq1) {
                                    Err(e) => Err(e),
                                    Ok(f) => Ok(
                                        (
                                            j,
                                            Some(
                                                PgnMove {
                                                    piece: PgnPieceMove::Piece {
                                                        piece,
                                                        from: Some(f),
                                                        to,
                                                        capture,
                                                    },
                                                    duck,
                                                },
                                            ),
                                        ),
                                    ),
                                }
                            } else {
                                Err(Error::IncorrectMove)
                            }
                        } else if pre2.len() != 0 {
                            Err(Error::IncorrectMove)
                        } else {
                            Ok(
                                (
                                    j,
                                    Some(
                                        PgnMove {
                                            piece: PgnPieceMove::Piece {
                                                piece,
                                                from: None,
                                                to,
                                                capture,
                                            },
                                            duck,
                                        },
                                    ),
                                ),
                            )
                        }
                    },
                }
            }
        },
    }
}

/// What a move token at `i` parses to: the position after the token
/// with the parsed move; `None` for a result token (`0-0`, `1-0`,
/// `0-1`), which ends the move list.
pub open spec fn spec_parse_move(s: Seq<u8>, i: int) -> Result<(int, Option<PgnMove>), Error> {
    let j = token_end(s, i);
    let t = s.subrange(i, j);
    if t == seq![48u8, 45u8, 48u8] || t == seq![49u8, 45u8, 48u8] || t == seq![48u8, 45u8, 49u8] {
        Ok((j, None))
    } else if t.len() < 4 {
        Err(Error::IncorrectMove)
    } else {
        match spec_parse_square(t[t.len() - 2], t[t.len() - 1]) {
            Err(e) => Err(e),
            Ok(duck) => {
                let rest = t.subrange(0, t.len() - 2);
                if rest == seq![79u8, 45u8, 79u8] {
                    Ok((j, Some(PgnMove { piece: PgnPieceMove::Castle { long: false }, duck })))
                } else if rest == seq![79u8, 45u8, 79u8, 45u8, 79u8] {
                    Ok((j, Some(PgnMove { piece: PgnPieceMove::Castle { long: true }, duck })))
                } else {
                    spec_parse_plain(rest, duck, j)
                }
            },
        }
    }
}

/// Reads one move token starting at `i`, as [`spec_parse_move`] says.
#[verifier::loop_isolation(false)]
#[verifier::rlimit(100)]
pub fn parse_move(bytes: &[u8], i: usize) -> (r: Result<(usize, Option<PgnMove>), Error>)
    requires
        i <= bytes@.len(),
    ensures
        (match (r, spec_parse_move(bytes@, i as int)) {
            (Ok((k, m)), Ok((ks, ms))) => k == ks && m == ms,
            (Err(e), Err(es)) => e == es,
            _ => false,
        }),
{
    let ghost s = bytes@;
    proof {
        lemma_token_end_bounds(s, i as int);
    }
    let mut j: usize = i;
    while j < bytes.len() && (bytes[j] == 45 || (bytes[j] >= 48 && bytes[j] <= 57) || (bytes[j]
        >= 65 && bytes[j] <= 90) || (bytes[j] >= 97 && bytes[j] <= 122))
        invariant
            i <= j <= bytes@.len(),
            token_end(s, j as int) == token_end(s, i as int),
        decreases bytes@.len() - j,
    {
        j += 1;
    }
    proof {
        assert(token_end(s, j as int) == j as int);
    }
    let token_slice = vstd::slice::slice_subrange(bytes, i, j);
    let token = vstd::slice::slice_to_vec(token_slice);
    let ghost t = s.subrange(i as int, j as int);
    proof {
        assert(token@ =~= t);
    }
    let tlen = token.len();

    let is_result = tlen == 3 && ((token[0] == 48 && token[1] == 45 && token[2] == 48) || (token[0]
        == 49 && token[1] == 45 && token[2] == 48) || (token[0] == 48 && token[1] == 45 && token[2]
        == 49));
    proof {
        if is_result {
            if token[1] == 45 && token[0] == 48 && token[2] == 48 {
                assert(t =~= seq![48u8, 45u8, 48u8]);
            } else if token[0] == 49 {
                assert(t =~= seq![49u8, 45u8, 48u8]);
            } else {
                assert(t =~= seq![48u8, 45u8, 49u8]);
            }
        } else {
            assert(t != seq![48u8, 45u8, 48u8]) by {
                if t == seq![48u8, 45u8, 48u8] {
                    assert(t.len() == 3 && t[0] == 48 && t[1] == 45 && t[2] == 48);
                }
            }
            assert(t != seq![49u8, 45u8, 48u8]) by {
                if t == seq![49u8, 45u8, 48u8] {
                    assert(t.len() == 3 && t[0] == 49 && t[1] == 45 && t[2] == 48);
                }
            }
            assert(t != seq![48u8, 45u8, 49u8]) by {
                if t == seq![48u8, 45u8, 49u8] {
                    assert(t.len() == 3 && t[0] == 48 && t[1] == 45 && t[2] == 49);
                }
            }
        }
    }
    if is_result {
        return Ok((j, None));
    }
    if tlen < 4 {
        return Err(Error::IncorrectMove);
    }

    let duck = match parse_square(token[tlen - 2], token[tlen - 1]) {
        Ok(d) => d,
        Err(e) => {
            return Err(e);
        },
    };
    let rlen = tlen - 2;
    let ghost rest = t.subrange(0, t.len() - 2);
    let is_short = rlen == 3 && token[0] == 79 && token[1] == 45 && token[2] == 79;
    let is_long = rlen == 5 && token[0] == 79 && token[1] == 45 && token[2] == 79 && token[3] == 45
        && token[4] == 79;
    proof {
        if is_short {
            assert(rest =~= seq![79u8, 45u8, 79u8]);
        } else {
            assert(rest != seq![79u8, 45u8, 79u8]) by {
                if rest == seq![79u8, 45u8, 79u8] {
                    assert(rest.len() == 3 && rest[0] == 79 && rest[1] == 45 && rest[2] == 79);
                }
            }
        }
        if is_long {
            assert(rest =~= seq![79u8, 45u8, 79u8, 45u8, 79u8]);
        } else {
            assert(rest != seq![79u8, 45u8, 79u8, 45u8, 79u8]) by {
                if rest == seq![79u8, 45u8, 79u8, 45u8, 79u8] {
                    assert(rest.len() == 5 && rest[0] == 79 && rest[1] == 45 && rest[2] == 79
                        && rest[3] == 45 && rest[4] == 79);
                }
            }
        }
    }
    if is_short {
        return Ok((j, Some(PgnMove { piece: PgnPieceMove::Castle { long: false }, duck })));
    }
    if is_long {
        return Ok((j, Some(PgnMove { piece: PgnPieceMove::Castle { long: true }, duck })));
    }

    let first = token[0];
    let lo: usize;
    let piece: PieceKind;
    if first >= 65 && first <= 90 {
        piece = match first {
            82 => PieceKind::Rook,
            78 => PieceKind::Knight,
            66 => PieceKind::Bishop,
            75 => PieceKind::King,
            81 => PieceKind::Queen,
            l => {
                return Err(Error::UnknownPiece(l));
            },
        };
        lo = 1;
    } else {
        piece = PieceKind::Pawn;
        lo = 0;
    }
    let ghost body = if is_upper(rest[0]) {
        rest.drop_first()
    } else {
        rest
    };
    proof {
        assert(body =~= rest.subrange(lo as int, rlen as int));
    }
    if rlen - lo < 2 {
        return Err(Error::IncorrectMove);
    }
    let sq0 = token[rlen - 2];
    let sq1 = token[rlen - 1];
    let to = match parse_square(sq0, sq1) {
        Ok(t) => t,
        Err(e) => {
            return Err(e);
        },
    };
    let ghost pre = body.subrange(0, body.len() - 2);
    proof {
        assert(pre =~= rest.subrange(lo as int, rlen - 2));
    }
    let mut hi = rlen - 2;
    let capture = hi > lo && token[hi - 1] == 120;
    if capture {
        hi -= 1;
    }
    let ghost pre2 = if pre.len() > 0 && pre.last() == 120 {
        pre.drop_last()
    } else {
        pre
    };
    proof {
        assert(pre2 =~= rest.subrange(lo as int, hi as int));
    }
    let from: Option<Square>;
    if hi - lo == 1 {
        let b = token[lo];
        if b >= 48 && b <= 57 {
            from = match parse_square(sq0, b) {
                Ok(f) => Some(f),
                Err(e) => {
                    return Err(e);
                },
            };
        } else if b >= 97 && b <= 122 {
            from = match parse_square(b, sq1) {
                Ok(f) => Some(f),
                Err(e) => {
                    return Err(e);
                },
            };
        } else {
            return Err(Error::IncorrectMove);
        }
    } else if hi != lo {
        return Err(Error::IncorrectMove);
    } else {
        from = None;
    }
    Ok((j, Some(PgnMove { piece: PgnPieceMove::Piece { piece, from, to, capture }, duck })))
}

/// After a successful move number the cursor moved forward and stayed
/// in bounds.
pub proof fn lemma_parse_number_progress(s: Seq<u8>, i: int)
    requires
        0 <= i <= s.len(),
    ensures
        (match spec_parse_number(s, i) {
            Ok((k, _)) => i < k <= s.len(),
            Err(_) => true,
        }),
{
    lemma_digits_end_bounds(s, i);
}

/// After a successful move token the cursor stayed in bounds, and a
/// real move (not a result token) consumed at least four bytes.
pub proof fn lemma_parse_move_progress(s: Seq<u8>, i: int)
    requires
        0 <= i <= s.len(),
    ensures
        (match spec_parse_move(s, i) {
            Ok((k, m)) => i <= k <= s.len() && (m is Some ==> k >= i + 4),
            Err(_) => true,
        }),
{
    lemma_token_end_bounds(s, i);
    let j = token_end(s, i);
    let t = s.subrange(i, j);
    if t == seq![48u8, 45u8, 48u8] || t == seq![49u8, 45u8, 48u8] || t == seq![48u8, 45u8, 49u8] {
    } else if t.len() >= 4 {
        assert(j - i >= 4);
    }
}

/// What a whole move list parses to: repeated rounds of a move number
/// and two move tokens; a result token ends the list at once, the end
/// of input ends it after any round.
pub open spec fn spec_parse_moves(s: Seq<u8>, i: int) -> Result<Seq<PgnMove>, Error>
    decreases s.len() - i,
    when 0 <= i <= s.len()
    via spec_parse_moves_decreases
{
    let j = skip_ws(s, i);
    if j >= s.len() {
        Ok(Seq::empty())
    } else {
        match spec_parse_number(s, j) {
            Err(e) => Err(e),
            Ok((k, _)) => {
                let k1 = skip_ws(s, k);
                match spec_parse_move(s, k1) {
                    Err(e) => Err(e),
                    Ok((k2, None)) => Ok(Seq::empty()),
                    Ok((k2, Some(m1))) => {
                        let k3 = skip_ws(s, k2);
                        match spec_parse_move(s, k3) {
                            Err(e) => Err(e),
                            Ok((k4, None)) => Ok(seq![m1]),
                            Ok((k4, Some(m2))) => match spec_parse_moves(s, k4) {
                                Err(e) => Err(e),
                                Ok(rest) => Ok(seq![m1, m2] + rest),
                            },
                        }
                    },
                }
            },
        }
    }
}

#[via_fn]
proof fn spec_parse_moves_decreases(s: Seq<u8>, i: int) {
    lemma_skip_ws_bounds(s, i);
    let j = skip_ws(s, i);
    if j < s.len() {
        match spec_parse_number(s, j) {
            Ok((k, _)) => {
                lemma_parse_number_progress(s, j);
                lemma_skip_ws_bounds(s, k);
                let k1 = skip_ws(s, k);
                match spec_parse_move(s, k1) {
                    Ok((k2, Some(_))) => {
                        lemma_parse_move_progress(s, k1);
                        lemma_skip_ws_bounds(s, k2);
                        let k3 = skip_ws(s, k2);
                        match spec_parse_move(s, k3) {
                            Ok((k4, Some(_))) => {
                                lemma_parse_move_progress(s, k3);
                            },
                            _ => {},
                        }
                    },
                    _ => {},
                }
            },
            _ => {},
        }
    }
}

/// Prefixing a parse result with already-collected moves.
pub open spec fn prepend_moves(pre: Seq<PgnMove>, r: Result<Seq<PgnMove>, Error>) -> Result<
    Seq<PgnMove>,
    Error,
> {
    match r {
        Ok(v) => Ok(pre + v),
        Err(e) => Err(e),
    }
}

/// The position after any whitespace starting at `i`.
#[verifier::loop_isolation(false)]
fn skip_whitespace(bytes: &[u8], i: usize) -> (r: usize)
    requires
        i <= bytes@.len(),
    ensures
        r == skip_ws(bytes@, i as int),
        i <= r <= bytes@.len(),
{
    proof {
        lemma_skip_ws_bounds(bytes@, i as int);
    }
    let mut j: usize = i;
    while j < bytes.len() && (bytes[j] == 32 || bytes[j] == 9 || bytes[j] == 10 || bytes[j] == 12
        || bytes[j] == 13)
        invariant
            i <= j <= bytes@.len(),
            skip_ws(bytes@, j as int) == skip_ws(bytes@, i as int),
        decreases bytes@.len() - j,
    {
        j += 1;
    }
    proof {
        assert(skip_ws(bytes@, j as int) == j as int);
    }
    j
}

/// Parses a whole move list, exactly as [`spec_parse_moves`] says: the
/// returned moves are the listed ones in order, and a failure carries
/// the grammar's error for this input.
#[verifier::loop_isolation(false)]
#[verifier::rlimit(100)]
pub fn parse_moves(s: &str) -> (r: Result<Vec<PgnMove>, Error>)
    ensures
        (match (r, spec_parse_moves(s.spec_bytes(), 0)) {
            (Ok(v), Ok(vs)) => v@ == vs,
            (Err(e), Err(es)) => e == es,
            _ => false,
        }),
{
    let bytes = s.as_bytes();
    let ghost sq = bytes@;
    let mut moves: Vec<PgnMove> = Vec::new();
    let mut i: usize = 0;
    proof {
        match spec_parse_moves(sq, 0) {
            Ok(v) => {
                assert(Seq::<PgnMove>::empty() + v =~= v);
            },
            Err(_) => {},
        }
    }
    loop
        invariant
            i <= bytes@.len(),
            spec_parse_moves(sq, 0) == prepend_moves(moves@, spec_parse_moves(sq, i as int)),
        decreases bytes@.len() - i,
    {
        let ghost i0 = i as int;
        let j = skip_whitespace(bytes, i);
        if j >= bytes.len() {
            proof {
                assert(spec_parse_moves(sq, i0) == Ok::<Seq<PgnMove>, Error>(Seq::<PgnMove>::empty()));
                assert(moves@ + Seq::<PgnMove>::empty() =~= moves@);
            }
            return Ok(moves);
        }
        let k = match parse_number(bytes, j) {
            Ok((k, _)) => k,
            Err(e) => {
                return Err(e);
            },
        };
        proof {
            lemma_parse_number_progress(sq, j as int);
        }
        let k1 = skip_whitespace(bytes, k);
        let (k2, m1) = match parse_move(bytes, k1) {
            Ok(p) => p,
            Err(e) => {
                return Err(e);
            },
        };
        proof {
            lemma_parse_move_progress(sq, k1 as int);
        }
        let m1 = match m1 {
            Some(m) => m,
            None => {
                proof {
                    assert(spec_parse_moves(sq, i0) == Ok::<Seq<PgnMove>, Error>(Seq::<PgnMove>::empty()));
                    assert(moves@ + Seq::<PgnMove>::empty() =~= moves@);
                }
                return Ok(moves);
            },
        };
        let ghost moves0 = moves@;
        moves.push(m1);
        let k3 = skip_whitespace(bytes, k2);
        let (k4, m2) = match parse_move(bytes, k3) {
            Ok(p) => p,
            Err(e) => {
                return Err(e);
            },
        };
        proof {
            lemma_parse_move_progress(sq, k3 as int);
        }
        let m2 = match m2 {
            Some(m) => m,
            None => {
                proof {
                    assert(spec_parse_moves(sq, i0) == Ok::<Seq<PgnMove>, Error>(seq![m1]));
                    assert(moves0 + seq![m1] =~= moves@);
                }
                return Ok(moves);
            },
        };
        moves.push(m2);
        i = k4;
        proof {
            match spec_parse_moves(sq, i as int) {
                Ok(rest) => {
                    assert(spec_parse_moves(sq, i0) == Ok::<Seq<PgnMove>, Error>(seq![m1, m2] + rest));
                    assert(moves0 + (seq![m1, m2] + rest) =~= moves@ + rest);
                },
                Err(_) => {},
            }
        }
    }
}

} // verus!
