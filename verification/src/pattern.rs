//! Bit patterns: facts about the bits of a 128-bit word.
//!
//! Every integer type of this crate is modelled by its bit pattern,
//! zero-extended to 128 bits. Bit `i` of a pattern is the bit of weight
//! `2^i`; bit 0 is the least significant one.

use vstd::prelude::*;

verus! {

/// Whether bit `i` of `v` is set.
pub open spec fn bit_at(v: u128, i: nat) -> bool {
    (v >> (i as u128)) & 1 == 1
}

/// The pattern in which only bit `i` is set.
pub open spec fn single_bit(i: nat) -> u128 {
    1u128 << (i as u128)
}

/// The pattern whose `n` low bits are set and no other.
pub open spec fn low_mask(n: nat) -> u128 {
    if n >= 128 {
        u128::MAX
    } else {
        ((1u128 << (n as u128)) - 1) as u128
    }
}

/// The index of the most significant set bit of `v` (0 for `v == 0`).
pub open spec fn top_bit(v: u128) -> nat
    decreases v,
{
    if v <= 1 {
        0
    } else {
        1 + top_bit(v / 2)
    }
}

/// Whether `v` has exactly one bit set.
pub open spec fn is_single_bit(v: u128) -> bool {
    exists|i: nat| i < 128 && v == single_bit(i)
}

/// Whether `count` is the number of zero bits above the most significant set
/// bit of `v`, in a word of `width` bits that `v` fits in.
pub open spec fn is_leading_zero_count(v: u128, width: nat, count: nat) -> bool {
    &&& count <= width
    &&& v == 0 ==> count == width
    &&& v != 0 ==> top_bit(v) + count + 1 == width
}

/// The most significant set bit of a non-zero pattern: the pattern shifted
/// right by its index is 1.
pub proof fn lemma_top_bit(v: u128)
    requires
        v != 0,
    ensures
        top_bit(v) < 128,
        v >> (top_bit(v) as u128) == 1,
        bit_at(v, top_bit(v)),
    decreases v,
{
    if v == 1 {
        assert(1u128 >> 0u128 == 1) by (bit_vector);
        assert((1u128 >> 0u128) & 1 == 1) by (bit_vector);
    } else {
        let h: u128 = v / 2;
        lemma_top_bit(h);
        let t: u128 = top_bit(h) as u128;
        assert(t < 127 && v >> ((t + 1) as u128) == 1 && (v >> ((t + 1) as u128)) & 1 == 1)
            by (bit_vector)
            requires
                h == v / 2,
                t < 128,
                h >> t == 1,
        ;
    }
}

/// Only the index of the most significant set bit shifts a pattern to 1.
pub proof fn lemma_top_bit_unique(v: u128, m: nat)
    requires
        m < 128,
        v >> (m as u128) == 1,
    ensures
        v != 0,
        top_bit(v) == m,
{
    let k: u128 = m as u128;
    assert(v != 0) by (bit_vector)
        requires
            k < 128,
            v >> k == 1,
    ;
    lemma_top_bit(v);
    let t: u128 = top_bit(v) as u128;
    assert(t == k) by (bit_vector)
        requires
            k < 128,
            t < 128,
            v >> k == 1,
            v >> t == 1,
    ;
}

/// Two patterns that differ are ordered by the most significant bit in which
/// they differ: after both are XORed with `x`, the first is the smaller one
/// exactly when `x` has there the bit that the first has.
pub proof fn lemma_top_bit_decides(a: u128, b: u128, x: u128)
    requires
        a != b,
    ensures
        ((a ^ x) < (b ^ x)) == (bit_at(x, top_bit(a ^ b)) == bit_at(a, top_bit(a ^ b))),
{
    let d: u128 = a ^ b;
    assert(d != 0) by (bit_vector)
        requires
            a != b,
            d == a ^ b,
    ;
    lemma_top_bit(d);
    let m: u128 = top_bit(d) as u128;
    assert(((a ^ x) < (b ^ x)) == (((x >> m) & 1 == 1) == ((a >> m) & 1 == 1))) by (bit_vector)
        requires
            m < 128,
            d == a ^ b,
            d >> m == 1,
    ;
}

/// XOR with a fixed pattern is injective.
pub proof fn lemma_xor_injective(a: u128, b: u128, x: u128)
    ensures
        (a ^ x) == (b ^ x) ==> a == b,
{
    assert((a ^ x) == (b ^ x) ==> a == b) by (bit_vector);
}

/// A pattern whose set bits are all set in another is kept by the AND of the
/// two.
pub proof fn lemma_bitwise_subset(w: u128, x: u128)
    requires
        forall|i: nat| i < 128 && bit_at(w, i) ==> bit_at(x, i),
    ensures
        w & x == w,
{
    let d: u128 = w & !x;
    if d != 0 {
        lemma_top_bit(d);
        let t: u128 = top_bit(d) as u128;
        assert((w >> t) & 1 == 1 && (x >> t) & 1 != 1) by (bit_vector)
            requires
                t < 128,
                d == w & !x,
                (d >> t) & 1 == 1,
        ;
        assert(bit_at(w, top_bit(d)));
        assert(false);
    }
    assert(w & x == w) by (bit_vector)
        requires
            w & !x == 0,
    ;
}

/// Two patterns with the same bits are equal.
pub proof fn lemma_bitwise_equal(a: u128, b: u128)
    requires
        forall|i: nat| i < 128 ==> bit_at(a, i) == bit_at(b, i),
    ensures
        a == b,
{
    lemma_bitwise_subset(a, b);
    lemma_bitwise_subset(b, a);
    assert(a == b) by (bit_vector)
        requires
            a & b == a,
            b & a == b,
    ;
}

/// A non-zero pattern has exactly one bit set when it shares no bit with the
/// pattern one less.
pub proof fn lemma_single_bit_test(v: u128)
    requires
        v != 0,
    ensures
        is_single_bit(v) == (v & ((v - 1) as u128) == 0),
{
    if is_single_bit(v) {
        let i = choose|i: nat| i < 128 && v == single_bit(i);
        let k: u128 = i as u128;
        assert(v & ((v - 1) as u128) == 0) by (bit_vector)
            requires
                k < 128,
                v == 1u128 << k,
        ;
    }
    if v & ((v - 1) as u128) == 0 {
        lemma_top_bit(v);
        let t: u128 = top_bit(v) as u128;
        assert(v == 1u128 << t) by (bit_vector)
            requires
                t < 128,
                v >> t == 1,
                v & ((v - 1) as u128) == 0,
        ;
        assert(v == single_bit(top_bit(v)));
    }
}

/// A single bit below the width of a type lies within the mask of that width.
pub proof fn lemma_single_bit_fits(i: nat, width: nat)
    requires
        i < width <= 128,
    ensures
        single_bit(i) & low_mask(width) == single_bit(i),
        single_bit(i) != 0,
{
    let k: u128 = i as u128;
    let w: u128 = width as u128;
    let m: u128 = low_mask(width);
    assert((1u128 << k) & m == 1u128 << k && (1u128 << k) != 0) by (bit_vector)
        requires
            k < w <= 128,
            w == 128 ==> m == 0xffff_ffff_ffff_ffff_ffff_ffff_ffff_ffffu128,
            w < 128 ==> m == ((1u128 << w) - 1) as u128,
    ;
}

/// The bits of a pattern to which one bit was added.
pub proof fn lemma_bit_of_or_single(v: u128, k: nat, i: nat)
    requires
        k < 128,
        i < 128,
    ensures
        bit_at(v | single_bit(k), i) == (bit_at(v, i) || i == k),
        bit_at(v | 0, i) == bit_at(v, i),
{
    let a: u128 = k as u128;
    let b: u128 = i as u128;
    assert((((v | (1u128 << a)) >> b) & 1 == 1) == (((v >> b) & 1 == 1) || b == a) && v | 0 == v)
        by (bit_vector)
        requires
            a < 128,
            b < 128,
    ;
}

/// Whether bit `i` is set, read as the sign of the AND with that single bit.
pub proof fn lemma_bit_test(v: u128, i: nat, sign: u128)
    requires
        i < 128,
    ensures
        (v & single_bit(i) != 0) == bit_at(v, i),
        (v & single_bit(i)) & sign == 0 <==> !bit_at(v, i) || single_bit(i) & sign == 0,
{
    let k: u128 = i as u128;
    assert(((v & (1u128 << k)) != 0) == ((v >> k) & 1 == 1) && (((v & (1u128 << k)) & sign == 0) <==> (
    !((v >> k) & 1 == 1) || (1u128 << k) & sign == 0))) by (bit_vector)
        requires
            k < 128,
    ;
}

/// Two single bits share a bit only if they are the same bit.
pub proof fn lemma_single_bits_disjoint(i: nat, j: nat)
    requires
        i < 128,
        j < 128,
    ensures
        (single_bit(i) & single_bit(j) == 0) == (i != j),
{
    let a: u128 = i as u128;
    let b: u128 = j as u128;
    assert(((1u128 << a) & (1u128 << b) == 0) == (a != b)) by (bit_vector)
        requires
            a < 128,
            b < 128,
    ;
}

/// The count of leading zeros in a word of `width` bits, from the count in
/// the 128-bit word that holds the same pattern.
pub proof fn lemma_leading_zeros_narrow(v: u128, width: nat, wide: nat)
    requires
        0 < width <= 128,
        v & low_mask(width) == v,
        wide <= 128,
        v == 0 ==> wide == 128,
        v != 0 ==> wide < 128 && v >> ((127 - wide) as u128) == 1,
    ensures
        wide + width >= 128,
        is_leading_zero_count(v, width, (wide + width - 128) as nat),
{
    if v != 0 {
        let k: u128 = (127 - wide) as u128;
        let w: u128 = width as u128;
        let m: u128 = low_mask(width);
        lemma_top_bit_unique(v, (127 - wide) as nat);
        assert(k < w) by (bit_vector)
            requires
                k < 128,
                0 < w <= 128,
                v >> k == 1,
                v & m == v,
                w == 128 ==> m == 0xffff_ffff_ffff_ffff_ffff_ffff_ffff_ffffu128,
                w < 128 ==> m == ((1u128 << w) - 1) as u128,
        ;
    }
}

} // verus!
