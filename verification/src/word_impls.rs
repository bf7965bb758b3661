//! [`FixedInt`] for the two pointer-sized types, whose width is that of the
//! machine.

use vstd::prelude::*;
use crate::fixed_int::{FixedInt, UnsignedInt};

verus! {

/// The operations of `usize`, read on the patterns of their operands.
proof fn lemma_usize_patterns(x: usize, y: usize, n: usize)
    by (bit_vector)
    ensures
        usize::BITS == 32 || usize::BITS == 64,
        (x as u128) & (((1u128 << (usize::BITS as u128)) - 1) as u128) == x as u128,
        n < usize::BITS ==> (x << n) as u128 == ((x as u128) << (n as u128)) & (((1u128 << (usize::BITS as u128)) - 1) as u128),
        (x & y) as u128 == (x as u128) & (y as u128),
        (x | y) as u128 == (x as u128) | (y as u128),
        (x ^ y) as u128 == (x as u128) ^ (y as u128),
        (x as u128) & 0u128 == 0,
{
}

impl FixedInt for usize {
    open spec fn bits(self) -> u128 {
        self as u128
    }

    open spec fn width() -> nat {
        usize::BITS as nat
    }

    open spec fn signed() -> bool {
        false
    }

    proof fn lemma_width() {
        lemma_usize_patterns(0, 0, 0);
    }

    proof fn lemma_bits_fit(self) {
        lemma_usize_patterns(self, 0, 0);
    }

    proof fn lemma_bits_injective(a: Self, b: Self) {
    }

    fn bit_size() -> (r: usize) {
        usize::BITS as usize
    }

    fn zero() -> (r: Self) {
        0
    }

    fn one() -> (r: Self) {
        1
    }

    fn shift_left(self, n: usize) -> (r: Self) {
        proof {
            lemma_usize_patterns(self, 0, n);
        }
        self << n
    }

    fn bit_and(self, other: Self) -> (r: Self) {
        proof {
            lemma_usize_patterns(self, other, 0);
        }
        self & other
    }

    fn bit_or(self, other: Self) -> (r: Self) {
        proof {
            lemma_usize_patterns(self, other, 0);
        }
        self | other
    }

    fn bit_xor(self, other: Self) -> (r: Self) {
        proof {
            lemma_usize_patterns(self, other, 0);
        }
        self ^ other
    }

    fn is_zero(self) -> (r: bool) {
        self == 0
    }

    fn is_positive(self) -> (r: bool) {
        proof {
            lemma_usize_patterns(self, 0, 0);
        }
        self > 0
    }

    fn decrement(self) -> (r: Self) {
        self - 1
    }
}

impl UnsignedInt for usize {
    proof fn lemma_unsigned() {
    }

    fn magnitude(self) -> (r: u128) {
        self as u128
    }
}

/// The operations of `isize`, read on the patterns of their operands.
proof fn lemma_isize_patterns(x: isize, y: isize, n: usize)
    by (bit_vector)
    ensures
        usize::BITS == 32 || usize::BITS == 64,
        ((x as usize) as u128) & (((1u128 << (usize::BITS as u128)) - 1) as u128) == (x as usize) as u128,
        (x as usize) as u128 == (y as usize) as u128 ==> x == y,
        (0isize as usize) as u128 == 0,
        (1isize as usize) as u128 == 1,
        n < usize::BITS ==> ((x << n) as usize) as u128 == (((x as usize) as u128) << (n as u128)) & (((1u128 << (usize::BITS as u128)) - 1) as u128),
        ((x & y) as usize) as u128 == ((x as usize) as u128) & ((y as usize) as u128),
        ((x | y) as usize) as u128 == ((x as usize) as u128) | ((y as usize) as u128),
        ((x ^ y) as usize) as u128 == ((x as usize) as u128) ^ ((y as usize) as u128),
        (x == 0) == ((x as usize) as u128 == 0),
        (x > 0) == ((x as usize) as u128 != 0 && ((x as usize) as u128) & (1u128 << ((usize::BITS - 1) as u128)) == 0),
        x > 0 ==> (((x - 1) as isize) as usize) as u128 == ((x as usize) as u128) - 1,
{
}

impl FixedInt for isize {
    open spec fn bits(self) -> u128 {
        (self as usize) as u128
    }

    open spec fn width() -> nat {
        usize::BITS as nat
    }

    open spec fn signed() -> bool {
        true
    }

    proof fn lemma_width() {
        lemma_isize_patterns(0, 0, 0);
    }

    proof fn lemma_bits_fit(self) {
        lemma_isize_patterns(self, 0, 0);
    }

    proof fn lemma_bits_injective(a: Self, b: Self) {
        lemma_isize_patterns(a, b, 0);
    }

    fn bit_size() -> (r: usize) {
        usize::BITS as usize
    }

    fn zero() -> (r: Self) {
        proof {
            lemma_isize_patterns(0, 0, 0);
        }
        0
    }

    fn one() -> (r: Self) {
        proof {
            lemma_isize_patterns(0, 0, 0);
        }
        1
    }

    fn shift_left(self, n: usize) -> (r: Self) {
        proof {
            lemma_isize_patterns(self, 0, n);
        }
        self << n
    }

    fn bit_and(self, other: Self) -> (r: Self) {
        proof {
            lemma_isize_patterns(self, other, 0);
        }
        self & other
    }

    fn bit_or(self, other: Self) -> (r: Self) {
        proof {
            lemma_isize_patterns(self, other, 0);
        }
        self | other
    }

    fn bit_xor(self, other: Self) -> (r: Self) {
        proof {
            lemma_isize_patterns(self, other, 0);
        }
        self ^ other
    }

    fn is_zero(self) -> (r: bool) {
        proof {
            lemma_isize_patterns(self, 0, 0);
        }
        self == 0
    }

    fn is_positive(self) -> (r: bool) {
        proof {
            lemma_isize_patterns(self, 0, 0);
        }
        self > 0
    }

    fn decrement(self) -> (r: Self) {
        proof {
            lemma_isize_patterns(self, 0, 0);
        }
        self - 1
    }
}

} // verus!
