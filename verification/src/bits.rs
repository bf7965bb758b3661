//! A register of bits, each of them undecided, 0 or 1.

use vstd::prelude::*;
use crate::bitops::BitOps;
use crate::fixed_int::FixedInt;
use crate::pattern::{bit_at, lemma_bit_of_or_single, lemma_bitwise_equal, single_bit};

verus! {

/// The pattern that a register stands for when every undecided bit is read
/// as 0: bit `i` is set exactly when slot `i` holds `Some(true)`.
pub open spec fn padded_value(slots: Seq<Option<bool>>) -> u128
    decreases slots.len(),
{
    if slots.len() == 0 {
        0
    } else {
        padded_value(slots.drop_last()) | slot_bit(slots, (slots.len() - 1) as nat)
    }
}

/// What slot `i` adds to the pattern of a register.
pub open spec fn slot_bit(slots: Seq<Option<bool>>, i: nat) -> u128 {
    if slots[i as int] == Some(true) {
        single_bit(i)
    } else {
        0
    }
}

/// Whether `v` has, in every decided slot, the bit that the slot holds.
pub open spec fn agrees(slots: Seq<Option<bool>>, v: u128) -> bool {
    forall|i: nat| i < slots.len() && slots[i as int] is Some ==> bit_at(v, i) == slots[i as int]->0
}

/// The bits of the pattern of a register: bit `i` is set exactly when slot
/// `i` exists and holds `Some(true)`.
pub proof fn lemma_padded_value_bits(slots: Seq<Option<bool>>, i: nat)
    requires
        slots.len() <= 128,
        i < 128,
    ensures
        bit_at(padded_value(slots), i) == (i < slots.len() && slots[i as int] == Some(true)),
    decreases slots.len(),
{
    if slots.len() == 0 {
        let k: u128 = i as u128;
        assert((0u128 >> k) & 1 != 1) by (bit_vector);
    } else {
        let last = (slots.len() - 1) as nat;
        lemma_padded_value_bits(slots.drop_last(), i);
        lemma_bit_of_or_single(padded_value(slots.drop_last()), last, i);
    }
}

/// The pattern of a register is the only one with these bits.
pub proof fn lemma_padded_value_unique(slots: Seq<Option<bool>>, v: u128)
    requires
        slots.len() <= 128,
        forall|i: nat|
            i < 128 ==> bit_at(v, i) == (i < slots.len() && slots[i as int] == Some(true)),
    ensures
        v == padded_value(slots),
{
    assert forall|i: nat| i < 128 implies bit_at(v, i) == bit_at(padded_value(slots), i) by {
        lemma_padded_value_bits(slots, i);
    }
    lemma_bitwise_equal(v, padded_value(slots));
}

/// The pattern of a register agrees with the register.
pub proof fn lemma_padded_value_agrees(slots: Seq<Option<bool>>)
    requires
        slots.len() <= 128,
    ensures
        agrees(slots, padded_value(slots)),
{
    assert forall|i: nat| i < slots.len() && slots[i as int] is Some implies bit_at(
        padded_value(slots),
        i,
    ) == slots[i as int]->0 by {
        lemma_padded_value_bits(slots, i);
    }
}

/// Two numbers that stand for one register are the same number: forming the
/// number of a register twice gives it twice.
pub proof fn lemma_zero_padded_number_is_determined<T: FixedInt>(
    slots: Seq<Option<bool>>,
    first: T,
    second: T,
)
    requires
        first.bits() == padded_value(slots),
        second.bits() == padded_value(slots),
    ensures
        first == second,
{
    T::lemma_bits_injective(first, second);
}

/// Bits representation: one slot for each bit of an integer type.
pub struct Bits {
    bits: Vec<Option<bool>>,
}

impl View for Bits {
    type V = Seq<Option<bool>>;

    closed spec fn view(&self) -> Seq<Option<bool>> {
        self.bits@
    }
}

impl Bits {
    /// Creates the register of the type `T`, every bit undecided.
    pub fn new<T: FixedInt>() -> (r: Self)
        ensures
            r@ == Seq::new(T::width(), |i: int| None::<bool>),
    {
        let size = Self::bit_size::<T>();
        let mut bits: Vec<Option<bool>> = Vec::with_capacity(size);
        let mut i: usize = 0;
        while i < size
            invariant
                i <= size,
                bits@ == Seq::new(i as nat, |j: int| None::<bool>),
            decreases size - i,
        {
            bits.push(None);
            i += 1;
        }
        Bits { bits }
    }

    /// The number of bits of the type `T`.
    pub fn bit_size<T: FixedInt>() -> (r: usize)
        ensures
            r == T::width(),
    {
        T::bit_size()
    }

    /// The slot of bit `index`.
    pub fn get_bit(&self, index: usize) -> (r: Option<bool>)
        requires
            index < self@.len(),
        ensures
            r == self@[index as int],
    {
        self.bits[index]
    }

    /// Decides bit `index` to be `val`, whatever the slot held.
    pub fn set_bit(&mut self, index: usize, val: bool)
        requires
            index < old(self)@.len(),
        ensures
            final(self)@ == old(self)@.update(index as int, Some(val)),
    {
        self.bits.set(index, Some(val));
    }

    /// Decides bit `index` to be `val` unless it is decided to be the
    /// opposite: then the register is left as it was and the call fails.
    pub fn set_bit_within_constrains(&mut self, index: usize, val: bool) -> (r: Result<
        (),
        &'static str,
    >)
        requires
            index < old(self)@.len(),
        ensures
            old(self)@[index as int] == Some(!val) ==> final(self)@ == old(self)@ && (r matches Err(
                e,
            ) && e@ == "Already decided bit value can not be changed!"@),
            old(self)@[index as int] != Some(!val) ==> final(self)@ == old(self)@.update(
                index as int,
                Some(val),
            ) && r is Ok,
    {
        match self.bits[index] {
            Some(bit) => {
                if bit != val {
                    return Err("Already decided bit value can not be changed!");
                }
                assert(self@ =~= old(self)@.update(index as int, Some(val)));
            },
            None => {
                self.bits.set(index, Some(val));
            },
        }
        Ok(())
    }

    /// Whether bit `index` is decided.
    pub fn is_bit_decided(&self, index: usize) -> (r: bool)
        requires
            index < self@.len(),
        ensures
            r == (self@[index as int] is Some),
    {
        let bit = self.bits[index];
        bit.is_some()
    }

    /// The number of type `T` that the register stands for, every undecided
    /// bit read as 0. Fails when `T` has fewer bits than the register.
    pub fn form_zero_padded_number<T: BitOps>(&self) -> (r: Result<T, &str>)
        ensures
            T::width() < self@.len() ==> (r matches Err(e) && e@
                == "Requested number type has not enough bits to represent the whole number!"@),
            T::width() >= self@.len() ==> (r matches Ok(number) && number.bits() == padded_value(
                self@,
            )),
    {
        if Self::bit_size::<T>() < self.bits.len() {
            return Err("Requested number type has not enough bits to represent the whole number!");
        }
        let mut number: T = T::zero();
        let mut index: usize = 0;
        while index < self.bits.len()
            invariant
                index <= self.bits.len() <= T::width(),
                self.bits@ == self@,
                number.bits() == padded_value(self@.take(index as int)),
            decreases self.bits.len() - index,
        {
            self.incorporate_bit(index, &mut number);
            proof {
                assert(self@.take(index + 1).drop_last() =~= self@.take(index as int));
            }
            index += 1;
        }
        proof {
            assert(self@.take(index as int) =~= self@);
        }
        Ok(number)
    }

    /// Sets bit `index` of `number` where the register has decided it to be
    /// 1, and leaves `number` as it is otherwise.
    pub fn incorporate_bit<T: BitOps>(&self, index: usize, number: &mut T)
        requires
            index < self@.len(),
            index < T::width(),
        ensures
            final(number).bits() == old(number).bits() | slot_bit(self@, index as nat),
    {
        let bit = self.bits[index];
        match bit {
            Some(true) => {
                number.set_bit(index);
            },
            _ => {
                assert(number.bits() | 0 == number.bits()) by (bit_vector);
            },
        }
    }
}

} // verus!
