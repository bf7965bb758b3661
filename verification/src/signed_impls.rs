//! [`FixedInt`] for the signed primitive types: the pattern of a value is
//! its two's complement.

use vstd::prelude::*;
use crate::fixed_int::FixedInt;

verus! {

/// The operations of `i8`, read on the patterns of their operands.
proof fn lemma_i8_patterns(x: i8, y: i8, n: u8)
    by (bit_vector)
    ensures
        ((1u128 << 8u128) - 1) as u128 == 0xffu128,
        1u128 << 7u128 == 0x80u128,
        ((x as u8) as u128) & 0xffu128 == (x as u8) as u128,
        (x as u8) as u128 == (y as u8) as u128 ==> x == y,
        (0i8 as u8) as u128 == 0,
        (1i8 as u8) as u128 == 1,
        n < 8 ==> ((x << n) as u8) as u128 == (((x as u8) as u128) << (n as u128)) & 0xffu128,
        ((x & y) as u8) as u128 == ((x as u8) as u128) & ((y as u8) as u128),
        ((x | y) as u8) as u128 == ((x as u8) as u128) | ((y as u8) as u128),
        ((x ^ y) as u8) as u128 == ((x as u8) as u128) ^ ((y as u8) as u128),
        (x == 0) == ((x as u8) as u128 == 0),
        (x > 0) == ((x as u8) as u128 != 0 && ((x as u8) as u128) & 0x80u128 == 0),
        x > 0 ==> (((x - 1) as i8) as u8) as u128 == ((x as u8) as u128) - 1,
{
}

impl FixedInt for i8 {
    open spec fn bits(self) -> u128 {
        (self as u8) as u128
    }

    open spec fn width() -> nat {
        8
    }

    open spec fn signed() -> bool {
        true
    }

    proof fn lemma_width() {
    }

    proof fn lemma_bits_fit(self) {
        lemma_i8_patterns(self, 0, 0);
    }

    proof fn lemma_bits_injective(a: Self, b: Self) {
        lemma_i8_patterns(a, b, 0);
    }

    fn bit_size() -> (r: usize) {
        8
    }

    fn zero() -> (r: Self) {
        proof {
            lemma_i8_patterns(0, 0, 0);
        }
        0
    }

    fn one() -> (r: Self) {
        proof {
            lemma_i8_patterns(0, 0, 0);
        }
        1
    }

    fn shift_left(self, n: usize) -> (r: Self) {
        proof {
            lemma_i8_patterns(self, 0, n as u8);
        }
        self << (n as u8)
    }

    fn bit_and(self, other: Self) -> (r: Self) {
        proof {
            lemma_i8_patterns(self, other, 0);
        }
        self & other
    }

    fn bit_or(self, other: Self) -> (r: Self) {
        proof {
            lemma_i8_patterns(self, other, 0);
        }
        self | other
    }

    fn bit_xor(self, other: Self) -> (r: Self) {
        proof {
            lemma_i8_patterns(self, other, 0);
        }
        self ^ other
    }

    fn is_zero(self) -> (r: bool) {
        proof {
            lemma_i8_patterns(self, 0, 0);
        }
        self == 0
    }

    fn is_positive(self) -> (r: bool) {
        proof {
            lemma_i8_patterns(self, 0, 0);
        }
        self > 0
    }

    fn decrement(self) -> (r: Self) {
        proof {
            lemma_i8_patterns(self, 0, 0);
        }
        self - 1
    }
}

/// The operations of `i16`, read on the patterns of their operands.
proof fn lemma_i16_patterns(x: i16, y: i16, n: u16)
    by (bit_vector)
    ensures
        ((1u128 << 16u128) - 1) as u128 == 0xffffu128,
        1u128 << 15u128 == 0x8000u128,
        ((x as u16) as u128) & 0xffffu128 == (x as u16) as u128,
        (x as u16) as u128 == (y as u16) as u128 ==> x == y,
        (0i16 as u16) as u128 == 0,
        (1i16 as u16) as u128 == 1,
        n < 16 ==> ((x << n) as u16) as u128 == (((x as u16) as u128) << (n as u128)) & 0xffffu128,
        ((x & y) as u16) as u128 == ((x as u16) as u128) & ((y as u16) as u128),
        ((x | y) as u16) as u128 == ((x as u16) as u128) | ((y as u16) as u128),
        ((x ^ y) as u16) as u128 == ((x as u16) as u128) ^ ((y as u16) as u128),
        (x == 0) == ((x as u16) as u128 == 0),
        (x > 0) == ((x as u16) as u128 != 0 && ((x as u16) as u128) & 0x8000u128 == 0),
        x > 0 ==> (((x - 1) as i16) as u16) as u128 == ((x as u16) as u128) - 1,
{
}

impl FixedInt for i16 {
    open spec fn bits(self) -> u128 {
        (self as u16) as u128
    }

    open spec fn width() -> nat {
        16
    }

    open spec fn signed() -> bool {
        true
    }

    proof fn lemma_width() {
    }

    proof fn lemma_bits_fit(self) {
        lemma_i16_patterns(self, 0, 0);
    }

    proof fn lemma_bits_injective(a: Self, b: Self) {
        lemma_i16_patterns(a, b, 0);
    }

    fn bit_size() -> (r: usize) {
        16
    }

    fn zero() -> (r: Self) {
        proof {
            lemma_i16_patterns(0, 0, 0);
        }
        0
    }

    fn one() -> (r: Self) {
        proof {
            lemma_i16_patterns(0, 0, 0);
        }
        1
    }

    fn shift_left(self, n: usize) -> (r: Self) {
        proof {
            lemma_i16_patterns(self, 0, n as u16);
        }
        self << (n as u16)
    }

    fn bit_and(self, other: Self) -> (r: Self) {
        proof {
            lemma_i16_patterns(self, other, 0);
        }
        self & other
    }

    fn bit_or(self, other: Self) -> (r: Self) {
        proof {
            lemma_i16_patterns(self, other, 0);
        }
        self | other
    }

    fn bit_xor(self, other: Self) -> (r: Self) {
        proof {
            lemma_i16_patterns(self, other, 0);
        }
        self ^ other
    }

    fn is_zero(self) -> (r: bool) {
        proof {
            lemma_i16_patterns(self, 0, 0);
        }
        self == 0
    }

    fn is_positive(self) -> (r: bool) {
        proof {
            lemma_i16_patterns(self, 0, 0);
        }
        self > 0
    }

    fn decrement(self) -> (r: Self) {
        proof {
            lemma_i16_patterns(self, 0, 0);
        }
        self - 1
    }
}

/// The operations of `i32`, read on the patterns of their operands.
proof fn lemma_i32_patterns(x: i32, y: i32, n: u32)
    by (bit_vector)
    ensures
        ((1u128 << 32u128) - 1) as u128 == 0xffff_ffffu128,
        1u128 << 31u128 == 0x8000_0000u128,
        ((x as u32) as u128) & 0xffff_ffffu128 == (x as u32) as u128,
        (x as u32) as u128 == (y as u32) as u128 ==> x == y,
        (0i32 as u32) as u128 == 0,
        (1i32 as u32) as u128 == 1,
        n < 32 ==> ((x << n) as u32) as u128 == (((x as u32) as u128) << (n as u128)) & 0xffff_ffffu128,
        ((x & y) as u32) as u128 == ((x as u32) as u128) & ((y as u32) as u128),
        ((x | y) as u32) as u128 == ((x as u32) as u128) | ((y as u32) as u128),
        ((x ^ y) as u32) as u128 == ((x as u32) as u128) ^ ((y as u32) as u128),
        (x == 0) == ((x as u32) as u128 == 0),
        (x > 0) == ((x as u32) as u128 != 0 && ((x as u32) as u128) & 0x8000_0000u128 == 0),
        x > 0 ==> (((x - 1) as i32) as u32) as u128 == ((x as u32) as u128) - 1,
{
}

impl FixedInt for i32 {
    open spec fn bits(self) -> u128 {
        (self as u32) as u128
    }

    open spec fn width() -> nat {
        32
    }

    open spec fn signed() -> bool {
        true
    }

    proof fn lemma_width() {
    }

    proof fn lemma_bits_fit(self) {
        lemma_i32_patterns(self, 0, 0);
    }

    proof fn lemma_bits_injective(a: Self, b: Self) {
        lemma_i32_patterns(a, b, 0);
    }

    fn bit_size() -> (r: usize) {
        32
    }

    fn zero() -> (r: Self) {
        proof {
            lemma_i32_patterns(0, 0, 0);
        }
        0
    }

    fn one() -> (r: Self) {
        proof {
            lemma_i32_patterns(0, 0, 0);
        }
        1
    }

    fn shift_left(self, n: usize) -> (r: Self) {
        proof {
            lemma_i32_patterns(self, 0, n as u32);
        }
        self << (n as u32)
    }

    fn bit_and(self, other: Self) -> (r: Self) {
        proof {
            lemma_i32_patterns(self, other, 0);
        }
        self & other
    }

    fn bit_or(self, other: Self) -> (r: Self) {
        proof {
            lemma_i32_patterns(self, other, 0);
        }
        self | other
    }

    fn bit_xor(self, other: Self) -> (r: Self) {
        proof {
            lemma_i32_patterns(self, other, 0);
        }
        self ^ other
    }

    fn is_zero(self) -> (r: bool) {
        proof {
            lemma_i32_patterns(self, 0, 0);
        }
        self == 0
    }

    fn is_positive(self) -> (r: bool) {
        proof {
            lemma_i32_patterns(self, 0, 0);
        }
        self > 0
    }

    fn decrement(self) -> (r: Self) {
        proof {
            lemma_i32_patterns(self, 0, 0);
        }
        self - 1
    }
}

/// The operations of `i64`, read on the patterns of their operands.
proof fn lemma_i64_patterns(x: i64, y: i64, n: u64)
    by (bit_vector)
    ensures
        ((1u128 << 64u128) - 1) as u128 == 0xffff_ffff_ffff_ffffu128,
        1u128 << 63u128 == 0x8000_0000_0000_0000u128,
        ((x as u64) as u128) & 0xffff_ffff_ffff_ffffu128 == (x as u64) as u128,
        (x as u64) as u128 == (y as u64) as u128 ==> x == y,
        (0i64 as u64) as u128 == 0,
        (1i64 as u64) as u128 == 1,
        n < 64 ==> ((x << n) as u64) as u128 == (((x as u64) as u128) << (n as u128)) & 0xffff_ffff_ffff_ffffu128,
        ((x & y) as u64) as u128 == ((x as u64) as u128) & ((y as u64) as u128),
        ((x | y) as u64) as u128 == ((x as u64) as u128) | ((y as u64) as u128),
        ((x ^ y) as u64) as u128 == ((x as u64) as u128) ^ ((y as u64) as u128),
        (x == 0) == ((x as u64) as u128 == 0),
        (x > 0) == ((x as u64) as u128 != 0 && ((x as u64) as u128) & 0x8000_0000_0000_0000u128 == 0),
        x > 0 ==> (((x - 1) as i64) as u64) as u128 == ((x as u64) as u128) - 1,
{
}

impl FixedInt for i64 {
    open spec fn bits(self) -> u128 {
        (self as u64) as u128
    }

    open spec fn width() -> nat {
        64
    }

    open spec fn signed() -> bool {
        true
    }

    proof fn lemma_width() {
    }

    proof fn lemma_bits_fit(self) {
        lemma_i64_patterns(self, 0, 0);
    }

    proof fn lemma_bits_injective(a: Self, b: Self) {
        lemma_i64_patterns(a, b, 0);
    }

    fn bit_size() -> (r: usize) {
        64
    }

    fn zero() -> (r: Self) {
        proof {
            lemma_i64_patterns(0, 0, 0);
        }
        0
    }

    fn one() -> (r: Self) {
        proof {
            lemma_i64_patterns(0, 0, 0);
        }
        1
    }

    fn shift_left(self, n: usize) -> (r: Self) {
        proof {
            lemma_i64_patterns(self, 0, n as u64);
        }
        self << (n as u64)
    }

    fn bit_and(self, other: Self) -> (r: Self) {
        proof {
            lemma_i64_patterns(self, other, 0);
        }
        self & other
    }

    fn bit_or(self, other: Self) -> (r: Self) {
        proof {
            lemma_i64_patterns(self, other, 0);
        }
        self | other
    }

    fn bit_xor(self, other: Self) -> (r: Self) {
        proof {
            lemma_i64_patterns(self, other, 0);
        }
        self ^ other
    }

    fn is_zero(self) -> (r: bool) {
        proof {
            lemma_i64_patterns(self, 0, 0);
        }
        self == 0
    }

    fn is_positive(self) -> (r: bool) {
        proof {
            lemma_i64_patterns(self, 0, 0);
        }
        self > 0
    }

    fn decrement(self) -> (r: Self) {
        proof {
            lemma_i64_patterns(self, 0, 0);
        }
        self - 1
    }
}

/// The operations of `i128`, read on the patterns of their operands.
proof fn lemma_i128_patterns(x: i128, y: i128, n: u128)
    by (bit_vector)
    ensures
        1u128 << 127u128 == 0x8000_0000_0000_0000_0000_0000_0000_0000u128,
        (x as u128) & 0xffff_ffff_ffff_ffff_ffff_ffff_ffff_ffffu128 == x as u128,
        x as u128 == y as u128 ==> x == y,
        0i128 as u128 == 0,
        1i128 as u128 == 1,
        n < 128 ==> (x << n) as u128 == ((x as u128) << (n as u128)) & 0xffff_ffff_ffff_ffff_ffff_ffff_ffff_ffffu128,
        (x & y) as u128 == (x as u128) & (y as u128),
        (x | y) as u128 == (x as u128) | (y as u128),
        (x ^ y) as u128 == (x as u128) ^ (y as u128),
        (x == 0) == (x as u128 == 0),
        (x > 0) == (x as u128 != 0 && (x as u128) & 0x8000_0000_0000_0000_0000_0000_0000_0000u128 == 0),
        x > 0 ==> ((x - 1) as i128) as u128 == (x as u128) - 1,
{
}

impl FixedInt for i128 {
    open spec fn bits(self) -> u128 {
        self as u128
    }

    open spec fn width() -> nat {
        128
    }

    open spec fn signed() -> bool {
        true
    }

    proof fn lemma_width() {
    }

    proof fn lemma_bits_fit(self) {
        lemma_i128_patterns(self, 0, 0);
    }

    proof fn lemma_bits_injective(a: Self, b: Self) {
        lemma_i128_patterns(a, b, 0);
    }

    fn bit_size() -> (r: usize) {
        128
    }

    fn zero() -> (r: Self) {
        proof {
            lemma_i128_patterns(0, 0, 0);
        }
        0
    }

    fn one() -> (r: Self) {
        proof {
            lemma_i128_patterns(0, 0, 0);
        }
        1
    }

    fn shift_left(self, n: usize) -> (r: Self) {
        proof {
            lemma_i128_patterns(self, 0, n as u128);
        }
        self << (n as u128)
    }

    fn bit_and(self, other: Self) -> (r: Self) {
        proof {
            lemma_i128_patterns(self, other, 0);
        }
        self & other
    }

    fn bit_or(self, other: Self) -> (r: Self) {
        proof {
            lemma_i128_patterns(self, other, 0);
        }
        self | other
    }

    fn bit_xor(self, other: Self) -> (r: Self) {
        proof {
            lemma_i128_patterns(self, other, 0);
        }
        self ^ other
    }

    fn is_zero(self) -> (r: bool) {
        proof {
            lemma_i128_patterns(self, 0, 0);
        }
        self == 0
    }

    fn is_positive(self) -> (r: bool) {
        proof {
            lemma_i128_patterns(self, 0, 0);
        }
        self > 0
    }

    fn decrement(self) -> (r: Self) {
        proof {
            lemma_i128_patterns(self, 0, 0);
        }
        self - 1
    }
}

} // verus!
