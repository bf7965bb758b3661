//! Flags and single bits of an integer.
//!
//! A flag is a value with exactly one bit set. The operations are written
//! once, over [`FixedInt`], and every primitive integer type has them.

use vstd::prelude::*;
use crate::fixed_int::{is_positive_pattern, sign_bit, FixedInt};
use crate::pattern::{
    bit_at, is_single_bit, lemma_bit_test, lemma_single_bit_fits, lemma_single_bit_test,
    lemma_single_bits_disjoint, single_bit,
};

verus! {

/// Bit operations of an integer type.
pub trait BitOps: FixedInt {
    /// Whether the value is a flag: greater than zero, with exactly one bit
    /// set.
    fn is_flag(&self) -> (r: bool)
        ensures
            r == (is_positive_pattern(self.bits(), Self::width(), Self::signed()) && is_single_bit(
                self.bits(),
            )),
    {
        if self.is_positive() {
            proof {
                lemma_single_bit_test(self.bits());
            }
            self.bit_and(self.decrement()).is_zero()
        } else {
            false
        }
    }

    /// Whether the bits that the value and `flag` have in common make a
    /// number greater than zero: they have a bit in common and, in a signed
    /// type, not the sign bit. `flag` need not be a flag.
    fn is_flag_set(&self, flag: Self) -> (r: bool)
        ensures
            r == is_positive_pattern(self.bits() & flag.bits(), Self::width(), Self::signed()),
    {
        self.bit_and(flag).is_positive()
    }

    /// Sets in the value every bit that is set in `flag`.
    fn set_flag(&mut self, flag: Self)
        ensures
            final(self).bits() == old(self).bits() | flag.bits(),
    {
        *self = self.bit_or(flag);
    }

    /// Whether bit `bit_index` of the value is set. The sign bit of a signed
    /// type reads as not set.
    fn is_bit_set(&self, bit_index: usize) -> (r: bool)
        requires
            bit_index < Self::width(),
        ensures
            r == (bit_at(self.bits(), bit_index as nat) && !(Self::signed() && bit_index + 1
                == Self::width())),
    {
        let flag = Self::one().shift_left(bit_index);
        proof {
            Self::lemma_width();
            let i = bit_index as nat;
            let sign = sign_bit(Self::width(), Self::signed());
            lemma_single_bit_fits(i, Self::width());
            lemma_bit_test(self.bits(), i, sign);
            if Self::signed() {
                lemma_single_bits_disjoint(i, (Self::width() - 1) as nat);
            } else {
                assert(single_bit(i) & 0 == 0) by (bit_vector);
            }
        }
        self.is_flag_set(flag)
    }

    /// Sets bit `bit_index` of the value.
    fn set_bit(&mut self, bit_index: usize)
        requires
            bit_index < Self::width(),
        ensures
            final(self).bits() == old(self).bits() | single_bit(bit_index as nat),
    {
        let flag = Self::one().shift_left(bit_index);
        proof {
            Self::lemma_width();
            lemma_single_bit_fits(bit_index as nat, Self::width());
        }
        self.set_flag(flag);
    }
}

/// Every integer type has the bit operations.
impl<T: FixedInt> BitOps for T {

}

} // verus!
