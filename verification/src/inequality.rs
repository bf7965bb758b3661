//! The inequalities that a list of nearest points asks of a position, each
//! of them one restriction on one bit.

use vstd::prelude::*;
use crate::fixed_int::UnsignedInt;
use crate::pattern::{bit_at, lemma_top_bit, lemma_top_bit_decides, low_mask, top_bit};
use crate::ranking::distance;

verus! {

/// Whether the position `x` is nearer to the first point of the pair than to
/// the second.
pub open spec fn satisfies<T: UnsignedInt>(x: T, pair: (T, T)) -> bool {
    distance(pair.0, x) < distance(pair.1, x)
}

/// Whether the position `x` satisfies each of the inequalities.
pub open spec fn satisfies_all<T: UnsignedInt>(x: T, pairs: Seq<(T, T)>) -> bool {
    forall|i: int| 0 <= i < pairs.len() ==> satisfies(x, #[trigger] pairs[i])
}

/// Whether `w` satisfies the inequalities and has no bit set that some
/// position which satisfies them lacks.
pub open spec fn is_least_witness<T: UnsignedInt>(w: T, pairs: Seq<(T, T)>) -> bool {
    &&& satisfies_all(w, pairs)
    &&& forall|x: T| #[trigger] satisfies_all(x, pairs) ==> w.bits() & x.bits() == w.bits()
}

/// Whether each point of the list is a point of the point set.
pub open spec fn is_list_of<T>(points: Seq<T>, list: Seq<T>) -> bool {
    forall|i: int| 0 <= i < list.len() ==> points.contains(#[trigger] list[i])
}

/// The pairs of neighbours in the list: each point with the one that follows
/// it.
pub open spec fn adjacent_pairs<T>(list: Seq<T>) -> Seq<(T, T)> {
    Seq::new(
        if list.len() == 0 {
            0
        } else {
            (list.len() - 1) as nat
        },
        |i: int| (list[i], list[i + 1]),
    )
}

/// The points that are not in the list, in the order of the point set.
pub open spec fn further_points<T>(points: Seq<T>, list: Seq<T>) -> Seq<T> {
    points.filter(|p: T| !list.contains(p))
}

/// The last point of the list paired with each point that is not in the list;
/// no pair for an empty list.
pub open spec fn boundary_pairs<T>(points: Seq<T>, list: Seq<T>) -> Seq<(T, T)> {
    if list.len() == 0 {
        Seq::empty()
    } else {
        further_points(points, list).map_values(|u: T| (list.last(), u))
    }
}

/// The inequalities of a list: those between its neighbours, then those
/// between its last point and the points that are not in it.
pub open spec fn inequalities<T>(points: Seq<T>, list: Seq<T>) -> Seq<(T, T)> {
    adjacent_pairs(list) + boundary_pairs(points, list)
}

/// The index of the most significant bit in which the points of the pair
/// differ.
pub open spec fn deciding_bit<T: UnsignedInt>(pair: (T, T)) -> nat {
    top_bit(pair.0.bits() ^ pair.1.bits())
}

/// The bit that a position must have at the deciding bit of the pair to be
/// nearer to the first point: the bit that the first point has there.
pub open spec fn required_bit<T: UnsignedInt>(pair: (T, T)) -> bool {
    bit_at(pair.0.bits(), deciding_bit(pair))
}

/// The register that holds, for each of the pairs, the required bit at the
/// deciding bit, where a later pair overrides an earlier one.
pub open spec fn restrictions<T: UnsignedInt>(pairs: Seq<(T, T)>) -> Seq<Option<bool>>
    decreases pairs.len(),
{
    if pairs.len() == 0 {
        Seq::new(T::width(), |i: int| None::<bool>)
    } else {
        restrictions(pairs.drop_last()).update(
            deciding_bit(pairs.last()) as int,
            Some(required_bit(pairs.last())),
        )
    }
}

/// Inequalities have at most one least witness.
pub proof fn lemma_least_witness_unique<T: UnsignedInt>(first: T, second: T, pairs: Seq<(T, T)>)
    requires
        is_least_witness(first, pairs),
        is_least_witness(second, pairs),
    ensures
        first == second,
{
    let a: u128 = first.bits();
    let b: u128 = second.bits();
    assert(satisfies_all(first, pairs) && satisfies_all(second, pairs));
    assert(a == b) by (bit_vector)
        requires
            a & b == a,
            b & a == b,
    ;
    T::lemma_bits_injective(first, second);
}

/// An inequality between two different points is one restriction on one bit
/// of the position; between two equal points no position satisfies it.
pub proof fn lemma_inequality_is_bit<T: UnsignedInt>(x: T, pair: (T, T))
    ensures
        pair.0 == pair.1 ==> !satisfies(x, pair),
        pair.0 != pair.1 ==> deciding_bit(pair) < T::width() && satisfies(x, pair) == (bit_at(
            x.bits(),
            deciding_bit(pair),
        ) == required_bit(pair)),
{
    if pair.0 != pair.1 {
        T::lemma_bits_injective(pair.0, pair.1);
        lemma_top_bit_decides(pair.0.bits(), pair.1.bits(), x.bits());
        lemma_deciding_bit_in_range(pair);
    }
}

/// The deciding bit of two different points is a bit of their type.
pub proof fn lemma_deciding_bit_in_range<T: UnsignedInt>(pair: (T, T))
    requires
        pair.0 != pair.1,
    ensures
        deciding_bit(pair) < T::width(),
        pair.0.bits() ^ pair.1.bits() != 0,
{
    let a: u128 = pair.0.bits();
    let b: u128 = pair.1.bits();
    let d: u128 = a ^ b;
    T::lemma_bits_injective(pair.0, pair.1);
    T::lemma_width();
    pair.0.lemma_bits_fit();
    pair.1.lemma_bits_fit();
    assert(d != 0) by (bit_vector)
        requires
            a != b,
            d == a ^ b,
    ;
    lemma_top_bit(d);
    let t: u128 = top_bit(d) as u128;
    let w: u128 = T::width() as u128;
    let m: u128 = low_mask(T::width());
    assert(t < w) by (bit_vector)
        requires
            t < 128,
            0 < w <= 128,
            d == a ^ b,
            d >> t == 1,
            a & m == a,
            b & m == b,
            w == 128 ==> m == 0xffff_ffff_ffff_ffff_ffff_ffff_ffff_ffffu128,
            w < 128 ==> m == ((1u128 << w) - 1) as u128,
    ;
}

} // verus!
