//! [`FixedInt`] and [`UnsignedInt`] for the unsigned primitive types: the
//! pattern of a value is the value.

use vstd::prelude::*;
use crate::fixed_int::{FixedInt, UnsignedInt};

verus! {

/// The operations of `u8`, read on the patterns of their operands.
proof fn lemma_u8_patterns(x: u8, y: u8, n: u8)
    by (bit_vector)
    ensures
        ((1u128 << 8u128) - 1) as u128 == 0xffu128,
        (x as u128) & 0xffu128 == x as u128,
        n < 8 ==> (x << n) as u128 == ((x as u128) << (n as u128)) & 0xffu128,
        (x & y) as u128 == (x as u128) & (y as u128),
        (x | y) as u128 == (x as u128) | (y as u128),
        (x ^ y) as u128 == (x as u128) ^ (y as u128),
        (x as u128) & 0u128 == 0,
{
}

impl FixedInt for u8 {
    open spec fn bits(self) -> u128 {
        self as u128
    }

    open spec fn width() -> nat {
        8
    }

    open spec fn signed() -> bool {
        false
    }

    proof fn lemma_width() {
    }

    proof fn lemma_bits_fit(self) {
        lemma_u8_patterns(self, 0, 0);
    }

    proof fn lemma_bits_injective(a: Self, b: Self) {
    }

    fn bit_size() -> (r: usize) {
        8
    }

    fn zero() -> (r: Self) {
        0
    }

    fn one() -> (r: Self) {
        1
    }

    fn shift_left(self, n: usize) -> (r: Self) {
        proof {
            lemma_u8_patterns(self, 0, n as u8);
        }
        self << (n as u8)
    }

    fn bit_and(self, other: Self) -> (r: Self) {
        proof {
            lemma_u8_patterns(self, other, 0);
        }
        self & other
    }

    fn bit_or(self, other: Self) -> (r: Self) {
        proof {
            lemma_u8_patterns(self, other, 0);
        }
        self | other
    }

    fn bit_xor(self, other: Self) -> (r: Self) {
        proof {
            lemma_u8_patterns(self, other, 0);
        }
        self ^ other
    }

    fn is_zero(self) -> (r: bool) {
        self == 0
    }

    fn is_positive(self) -> (r: bool) {
        proof {
            lemma_u8_patterns(self, 0, 0);
        }
        self > 0
    }

    fn decrement(self) -> (r: Self) {
        self - 1
    }
}

impl UnsignedInt for u8 {
    proof fn lemma_unsigned() {
    }

    fn magnitude(self) -> (r: u128) {
        self as u128
    }
}

/// The operations of `u16`, read on the patterns of their operands.
proof fn lemma_u16_patterns(x: u16, y: u16, n: u16)
    by (bit_vector)
    ensures
        ((1u128 << 16u128) - 1) as u128 == 0xffffu128,
        (x as u128) & 0xffffu128 == x as u128,
        n < 16 ==> (x << n) as u128 == ((x as u128) << (n as u128)) & 0xffffu128,
        (x & y) as u128 == (x as u128) & (y as u128),
        (x | y) as u128 == (x as u128) | (y as u128),
        (x ^ y) as u128 == (x as u128) ^ (y as u128),
        (x as u128) & 0u128 == 0,
{
}

impl FixedInt for u16 {
    open spec fn bits(self) -> u128 {
        self as u128
    }

    open spec fn width() -> nat {
        16
    }

    open spec fn signed() -> bool {
        false
    }

    proof fn lemma_width() {
    }

    proof fn lemma_bits_fit(self) {
        lemma_u16_patterns(self, 0, 0);
    }

    proof fn lemma_bits_injective(a: Self, b: Self) {
    }

    fn bit_size() -> (r: usize) {
        16
    }

    fn zero() -> (r: Self) {
        0
    }

    fn one() -> (r: Self) {
        1
    }

    fn shift_left(self, n: usize) -> (r: Self) {
        proof {
            lemma_u16_patterns(self, 0, n as u16);
        }
        self << (n as u16)
    }

    fn bit_and(self, other: Self) -> (r: Self) {
        proof {
            lemma_u16_patterns(self, other, 0);
        }
        self & other
    }

    fn bit_or(self, other: Self) -> (r: Self) {
        proof {
            lemma_u16_patterns(self, other, 0);
        }
        self | other
    }

    fn bit_xor(self, other: Self) -> (r: Self) {
        proof {
            lemma_u16_patterns(self, other, 0);
        }
        self ^ other
    }

    fn is_zero(self) -> (r: bool) {
        self == 0
    }

    fn is_positive(self) -> (r: bool) {
        proof {
            lemma_u16_patterns(self, 0, 0);
        }
        self > 0
    }

    fn decrement(self) -> (r: Self) {
        self - 1
    }
}

impl UnsignedInt for u16 {
    proof fn lemma_unsigned() {
    }

    fn magnitude(self) -> (r: u128) {
        self as u128
    }
}

/// The operations of `u32`, read on the patterns of their operands.
proof fn lemma_u32_patterns(x: u32, y: u32, n: u32)
    by (bit_vector)
    ensures
        ((1u128 << 32u128) - 1) as u128 == 0xffff_ffffu128,
        (x as u128) & 0xffff_ffffu128 == x as u128,
        n < 32 ==> (x << n) as u128 == ((x as u128) << (n as u128)) & 0xffff_ffffu128,
        (x & y) as u128 == (x as u128) & (y as u128),
        (x | y) as u128 == (x as u128) | (y as u128),
        (x ^ y) as u128 == (x as u128) ^ (y as u128),
        (x as u128) & 0u128 == 0,
{
}

impl FixedInt for u32 {
    open spec fn bits(self) -> u128 {
        self as u128
    }

    open spec fn width() -> nat {
        32
    }

    open spec fn signed() -> bool {
        false
    }

    proof fn lemma_width() {
    }

    proof fn lemma_bits_fit(self) {
        lemma_u32_patterns(self, 0, 0);
    }

    proof fn lemma_bits_injective(a: Self, b: Self) {
    }

    fn bit_size() -> (r: usize) {
        32
    }

    fn zero() -> (r: Self) {
        0
    }

    fn one() -> (r: Self) {
        1
    }

    fn shift_left(self, n: usize) -> (r: Self) {
        proof {
            lemma_u32_patterns(self, 0, n as u32);
        }
        self << (n as u32)
    }

    fn bit_and(self, other: Self) -> (r: Self) {
        proof {
            lemma_u32_patterns(self, other, 0);
        }
        self & other
    }

    fn bit_or(self, other: Self) -> (r: Self) {
        proof {
            lemma_u32_patterns(self, other, 0);
        }
        self | other
    }

    fn bit_xor(self, other: Self) -> (r: Self) {
        proof {
            lemma_u32_patterns(self, other, 0);
        }
        self ^ other
    }

    fn is_zero(self) -> (r: bool) {
        self == 0
    }

    fn is_positive(self) -> (r: bool) {
        proof {
            lemma_u32_patterns(self, 0, 0);
        }
        self > 0
    }

    fn decrement(self) -> (r: Self) {
        self - 1
    }
}

impl UnsignedInt for u32 {
    proof fn lemma_unsigned() {
    }

    fn magnitude(self) -> (r: u128) {
        self as u128
    }
}

/// The operations of `u64`, read on the patterns of their operands.
proof fn lemma_u64_patterns(x: u64, y: u64, n: u64)
    by (bit_vector)
    ensures
        ((1u128 << 64u128) - 1) as u128 == 0xffff_ffff_ffff_ffffu128,
        (x as u128) & 0xffff_ffff_ffff_ffffu128 == x as u128,
        n < 64 ==> (x << n) as u128 == ((x as u128) << (n as u128)) & 0xffff_ffff_ffff_ffffu128,
        (x & y) as u128 == (x as u128) & (y as u128),
        (x | y) as u128 == (x as u128) | (y as u128),
        (x ^ y) as u128 == (x as u128) ^ (y as u128),
        (x as u128) & 0u128 == 0,
{
}

impl FixedInt for u64 {
    open spec fn bits(self) -> u128 {
        self as u128
    }

    open spec fn width() -> nat {
        64
    }

    open spec fn signed() -> bool {
        false
    }

    proof fn lemma_width() {
    }

    proof fn lemma_bits_fit(self) {
        lemma_u64_patterns(self, 0, 0);
    }

    proof fn lemma_bits_injective(a: Self, b: Self) {
    }

    fn bit_size() -> (r: usize) {
        64
    }

    fn zero() -> (r: Self) {
        0
    }

    fn one() -> (r: Self) {
        1
    }

    fn shift_left(self, n: usize) -> (r: Self) {
        proof {
            lemma_u64_patterns(self, 0, n as u64);
        }
        self << (n as u64)
    }

    fn bit_and(self, other: Self) -> (r: Self) {
        proof {
            lemma_u64_patterns(self, other, 0);
        }
        self & other
    }

    fn bit_or(self, other: Self) -> (r: Self) {
        proof {
            lemma_u64_patterns(self, other, 0);
        }
        self | other
    }

    fn bit_xor(self, other: Self) -> (r: Self) {
        proof {
            lemma_u64_patterns(self, other, 0);
        }
        self ^ other
    }

    fn is_zero(self) -> (r: bool) {
        self == 0
    }

    fn is_positive(self) -> (r: bool) {
        proof {
            lemma_u64_patterns(self, 0, 0);
        }
        self > 0
    }

    fn decrement(self) -> (r: Self) {
        self - 1
    }
}

impl UnsignedInt for u64 {
    proof fn lemma_unsigned() {
    }

    fn magnitude(self) -> (r: u128) {
        self as u128
    }
}

/// The operations of `u128`, read on the patterns of their operands.
proof fn lemma_u128_patterns(x: u128, n: u128)
    by (bit_vector)
    ensures
        x & 0xffff_ffff_ffff_ffff_ffff_ffff_ffff_ffffu128 == x,
        (x << n) & 0xffff_ffff_ffff_ffff_ffff_ffff_ffff_ffffu128 == x << n,
        x & 0u128 == 0,
{
}

impl FixedInt for u128 {
    open spec fn bits(self) -> u128 {
        self
    }

    open spec fn width() -> nat {
        128
    }

    open spec fn signed() -> bool {
        false
    }

    proof fn lemma_width() {
    }

    proof fn lemma_bits_fit(self) {
        lemma_u128_patterns(self, 0);
    }

    proof fn lemma_bits_injective(a: Self, b: Self) {
    }

    fn bit_size() -> (r: usize) {
        128
    }

    fn zero() -> (r: Self) {
        0
    }

    fn one() -> (r: Self) {
        1
    }

    fn shift_left(self, n: usize) -> (r: Self) {
        proof {
            lemma_u128_patterns(self, n as u128);
        }
        self << (n as u128)
    }

    fn bit_and(self, other: Self) -> (r: Self) {
        self & other
    }

    fn bit_or(self, other: Self) -> (r: Self) {
        self | other
    }

    fn bit_xor(self, other: Self) -> (r: Self) {
        self ^ other
    }

    fn is_zero(self) -> (r: bool) {
        self == 0
    }

    fn is_positive(self) -> (r: bool) {
        proof {
            lemma_u128_patterns(self, 0);
        }
        self > 0
    }

    fn decrement(self) -> (r: Self) {
        self - 1
    }
}

impl UnsignedInt for u128 {
    proof fn lemma_unsigned() {
    }

    fn magnitude(self) -> (r: u128) {
        self
    }
}

} // verus!
