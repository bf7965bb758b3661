//! Fixed-width integers as bit patterns.
//!
//! [`FixedInt`] is what the rest of the crate asks of an integer type: a
//! width, the constants zero and one, shifts and the bitwise operations.
//! Each operation is stated over the bit pattern of its operands.

use vstd::prelude::*;
use crate::pattern::{is_leading_zero_count, lemma_leading_zeros_narrow, low_mask, single_bit};

verus! {

/// The pattern of the sign bit of a type of the given width; no bit for an
/// unsigned type.
pub open spec fn sign_bit(width: nat, signed: bool) -> u128 {
    if signed {
        single_bit((width - 1) as nat)
    } else {
        0
    }
}

/// Whether `v` is the pattern of a value greater than zero.
pub open spec fn is_positive_pattern(v: u128, width: nat, signed: bool) -> bool {
    v != 0 && v & sign_bit(width, signed) == 0
}

/// A primitive integer type of a fixed width, signed or unsigned.
pub trait FixedInt: Copy + Sized {
    /// The bit pattern of the value (two's complement for a signed type),
    /// zero-extended to 128 bits.
    spec fn bits(self) -> u128;

    /// The number of bits of the type.
    spec fn width() -> nat;

    /// Whether the type is signed.
    spec fn signed() -> bool;

    /// A type has at least one bit and at most 128.
    proof fn lemma_width()
        ensures
            0 < Self::width() <= 128,
    ;

    /// A pattern has no bit set at or above the width of its type.
    proof fn lemma_bits_fit(self)
        ensures
            self.bits() & low_mask(Self::width()) == self.bits(),
    ;

    /// Two values with the same pattern are the same value.
    proof fn lemma_bits_injective(a: Self, b: Self)
        ensures
            a.bits() == b.bits() ==> a == b,
    ;

    /// The number of bits of the type.
    fn bit_size() -> (r: usize)
        ensures
            r == Self::width(),
    ;

    /// The value zero.
    fn zero() -> (r: Self)
        ensures
            r.bits() == 0,
    ;

    /// The value one.
    fn one() -> (r: Self)
        ensures
            r.bits() == 1,
    ;

    /// The value shifted left by `n` bits; bits shifted out are lost.
    fn shift_left(self, n: usize) -> (r: Self)
        requires
            n < Self::width(),
        ensures
            r.bits() == (self.bits() << (n as u128)) & low_mask(Self::width()),
    ;

    /// Bitwise AND.
    fn bit_and(self, other: Self) -> (r: Self)
        ensures
            r.bits() == self.bits() & other.bits(),
    ;

    /// Bitwise OR.
    fn bit_or(self, other: Self) -> (r: Self)
        ensures
            r.bits() == self.bits() | other.bits(),
    ;

    /// Bitwise XOR.
    fn bit_xor(self, other: Self) -> (r: Self)
        ensures
            r.bits() == self.bits() ^ other.bits(),
    ;

    /// Whether the value is zero.
    fn is_zero(self) -> (r: bool)
        ensures
            r == (self.bits() == 0),
    ;

    /// Whether the value is greater than zero.
    fn is_positive(self) -> (r: bool)
        ensures
            r == is_positive_pattern(self.bits(), Self::width(), Self::signed()),
    ;

    /// The value less one, for a value greater than zero.
    fn decrement(self) -> (r: Self)
        requires
            is_positive_pattern(self.bits(), Self::width(), Self::signed()),
        ensures
            r.bits() == self.bits() - 1,
    ;
}

/// An unsigned [`FixedInt`]: its pattern is its magnitude.
pub trait UnsignedInt: FixedInt {
    /// The type has no sign bit.
    proof fn lemma_unsigned()
        ensures
            !Self::signed(),
    ;

    /// The value as a 128-bit magnitude.
    fn magnitude(self) -> (r: u128)
        ensures
            r == self.bits(),
    ;

    /// The number of zero bits above the most significant set bit of the
    /// value; the width of the type for zero.
    fn leading_zeros(self) -> (r: u32)
        ensures
            is_leading_zero_count(self.bits(), Self::width(), r as nat),
    {
        let wide = leading_zeros_u128(self.magnitude());
        let size = Self::bit_size();
        proof {
            Self::lemma_width();
            self.lemma_bits_fit();
            lemma_leading_zeros_narrow(self.bits(), Self::width(), wide as nat);
        }
        wide - (128 - size as u32)
    }
}

/// `num_traits::PrimInt::leading_zeros` on a `u128`: the number of zero bits
/// above the most significant set bit, which is 128 for zero only. For a
/// non-zero word this says that the word shifted right by `127 - r` bits
/// is 1.
#[verifier::external_body]
fn leading_zeros_u128(v: u128) -> (r: u32)
    ensures
        r <= 128,
        v == 0 ==> r == 128,
        v != 0 ==> r < 128 && v >> ((127 - r) as u128) == 1,
{
    num_traits::PrimInt::leading_zeros(v)
}

} // verus!
