//! A 64-bit occupancy set, one bit per square.

use vstd::prelude::*;

use crate::square::Square;

verus! {

/// A set of squares as a 64-bit mask; bit `i` stands for the square with
/// index `i`.
#[derive(Debug, Clone, Copy, PartialEq, Eq)]
pub struct BitBoard {
    board: u64,
}

impl BitBoard {
    /// The raw mask.
    pub closed spec fn bits(&self) -> u64 {
        self.board
    }

    /// Whether the bit of index `i` is set.
    pub open spec fn spec_is_set(&self, i: int) -> bool {
        (self.bits() >> (i as u64)) & 1u64 == 1u64
    }

    /// The empty set.
    pub fn new() -> (r: BitBoard)
        ensures
            forall|i: int| 0 <= i < 64 ==> !r.spec_is_set(i),
    {
        let r = BitBoard { board: 0 };
        proof {
            assert(forall|i: u64| i < 64 ==> (0u64 >> i) & 1u64 == 0u64) by (bit_vector);
        }
        r
    }

    /// Adds `square` to the set.
    pub fn set(&mut self, square: Square)
        ensures
            forall|i: int|
                0 <= i < 64 ==> final(self).spec_is_set(i) == (i == square.idx()
                    || old(self).spec_is_set(i)),
    {
        let s = square.as_index();
        let ghost b = self.board;
        self.board = self.board | (1u64 << (s as u64));
        proof {
            let s64 = s as u64;
            assert forall|i: int| 0 <= i < 64 implies self.spec_is_set(i) == (i == square.idx()
                || old(self).spec_is_set(i)) by {
                let iu = i as u64;
                assert(((b | (1u64 << s64)) >> iu) & 1u64 == (if iu == s64 {
                    1u64
                } else {
                    (b >> iu) & 1u64
                })) by (bit_vector)
                    requires
                        iu < 64,
                        s64 < 64,
                ;
            }
        }
    }

    /// Adds `square` to the set when `val` holds; otherwise leaves the
    /// set unchanged.
    pub fn set_val(&mut self, square: Square, val: bool)
        ensures
            forall|i: int|
                0 <= i < 64 ==> final(self).spec_is_set(i) == ((i == square.idx() && val)
                    || old(self).spec_is_set(i)),
    {
        let s = square.as_index();
        let v: u64 = if val {
            1
        } else {
            0
        };
        let ghost b = self.board;
        self.board = self.board | (v << (s as u64));
        proof {
            let s64 = s as u64;
            assert forall|i: int| 0 <= i < 64 implies self.spec_is_set(i) == ((i == square.idx()
                && val) || old(self).spec_is_set(i)) by {
                let iu = i as u64;
                assert(((b | (v << s64)) >> iu) & 1u64 == (if iu == s64 && v == 1u64 {
                    1u64
                } else {
                    (b >> iu) & 1u64
                })) by (bit_vector)
                    requires
                        iu < 64,
                        s64 < 64,
                        v <= 1,
                ;
            }
        }
    }

    /// Whether `square` is in the set.
    pub fn is_set(&self, square: Square) -> (r: bool)
        ensures
            r == self.spec_is_set(square.idx()),
    {
        let s = square.as_index();
        let r = self.board & (1u64 << (s as u64)) > 0;
        proof {
            let b = self.board;
            let s64 = s as u64;
            assert(s64 < 64 ==> (b & (1u64 << s64) > 0) == ((b >> s64) & 1u64 == 1u64))
                by (bit_vector);
        }
        r
    }

    /// The complement set.
    pub fn invert(&self) -> (r: BitBoard)
        ensures
            forall|i: int| 0 <= i < 64 ==> r.spec_is_set(i) == !self.spec_is_set(i),
    {
        let r = BitBoard { board: !self.board };
        proof {
            let b = self.board;
            assert(forall|i: u64| i < 64 ==> ((!b) >> i) & 1u64 == 1u64 - ((b >> i) & 1u64))
                by (bit_vector);
        }
        r
    }
}

} // verus!
