//! The ranking of points by their XOR distance to a position.

use vstd::prelude::*;
use vstd::relations::{sorted_by, total_ordering};
use vstd::seq_lib::{lemma_sorted_unique, to_multiset_contains, to_multiset_len};
use crate::fixed_int::UnsignedInt;
use crate::pattern::lemma_xor_injective;

verus! {

/// The XOR distance between the point `p` and the position `x`.
pub open spec fn distance<T: UnsignedInt>(p: T, x: T) -> u128 {
    p.bits() ^ x.bits()
}

/// The points at the distance `key` from `x`, in the order in which the
/// sequence holds them.
pub open spec fn at_distance<T: UnsignedInt>(points: Seq<T>, x: T, key: u128) -> Seq<T> {
    points.filter(|p: T| distance(p, x) == key)
}

/// The order of the points by their distance to `x`.
pub open spec fn closer_or_equal<T: UnsignedInt>(x: T) -> spec_fn(T, T) -> bool {
    |a: T, b: T| distance(a, x) <= distance(b, x)
}

/// The points in the order of their distance to `x`, the nearest first.
pub open spec fn ranking<T: UnsignedInt>(points: Seq<T>, x: T) -> Seq<T> {
    points.sort_by(closer_or_equal(x))
}

/// The `count` nearest points to `x`, the nearest first; all the points
/// where there are fewer than `count`.
pub open spec fn nearest<T: UnsignedInt>(points: Seq<T>, x: T, count: nat) -> Seq<T> {
    ranking(points, x).take(
        if count <= points.len() {
            count as int
        } else {
            points.len() as int
        },
    )
}

/// The order by distance to a position is a total order of the points.
pub proof fn lemma_closer_or_equal_is_total<T: UnsignedInt>(x: T)
    ensures
        total_ordering(closer_or_equal(x)),
{
    let leq = closer_or_equal(x);
    assert forall|a: T, b: T| #[trigger] leq(a, b) && #[trigger] leq(b, a) implies a == b by {
        lemma_xor_injective(a.bits(), b.bits(), x.bits());
        T::lemma_bits_injective(a, b);
    }
}

/// The ranking is the only order of the points by their distance to `x`.
pub proof fn lemma_ranking_unique<T: UnsignedInt>(points: Seq<T>, x: T, sorted: Seq<T>)
    requires
        sorted.to_multiset() == points.to_multiset(),
        sorted_by(sorted, closer_or_equal(x)),
    ensures
        sorted == ranking(points, x),
{
    lemma_closer_or_equal_is_total(x);
    points.lemma_sort_by_ensures(closer_or_equal(x));
    lemma_sorted_unique(sorted, ranking(points, x), closer_or_equal(x));
}

/// The ranking of a point set holds the same points, as many as the set, in
/// the order of their distance.
pub proof fn lemma_ranking<T: UnsignedInt>(points: Seq<T>, x: T)
    ensures
        ranking(points, x).len() == points.len(),
        ranking(points, x).to_multiset() == points.to_multiset(),
        sorted_by(ranking(points, x), closer_or_equal(x)),
        forall|v: T| ranking(points, x).contains(v) <==> points.contains(v),
        points.no_duplicates() ==> ranking(points, x).no_duplicates(),
{
    let ranked = ranking(points, x);
    lemma_closer_or_equal_is_total(x);
    points.lemma_sort_by_ensures(closer_or_equal(x));
    to_multiset_len(points);
    to_multiset_len(ranked);
    assert forall|v: T| ranked.contains(v) <==> points.contains(v) by {
        to_multiset_contains(points, v);
        to_multiset_contains(ranked, v);
    }
    if points.no_duplicates() {
        points.lemma_multiset_has_no_duplicates();
        ranked.lemma_multiset_has_no_duplicates_conv();
    }
}

/// As many points are the nearest as are asked for, where the point set has
/// that many, and each of them is a point of the set.
pub proof fn lemma_nearest_are_points<T: UnsignedInt>(points: Seq<T>, x: T, count: nat)
    ensures
        nearest(points, x, count).len() == if count <= points.len() {
            count
        } else {
            points.len()
        },
        forall|i: int|
            0 <= i < nearest(points, x, count).len() ==> points.contains(
                #[trigger] nearest(points, x, count)[i],
            ),
{
    let ranked = ranking(points, x);
    lemma_ranking(points, x);
    assert forall|i: int| 0 <= i < nearest(points, x, count).len() implies points.contains(
        #[trigger] nearest(points, x, count)[i],
    ) by {
        assert(ranked.contains(ranked[i]));
    }
}

/// No point is the nearest where none is asked for.
pub proof fn lemma_nearest_of_none<T: UnsignedInt>(points: Seq<T>, x: T)
    ensures
        nearest(points, x, 0) == Seq::<T>::empty(),
{
    assert(nearest(points, x, 0) =~= Seq::<T>::empty());
}

/// Where at least as many points are asked for as there are, the nearest
/// points are all the points, ranked.
pub proof fn lemma_nearest_of_all<T: UnsignedInt>(points: Seq<T>, x: T, count: nat)
    requires
        count >= points.len(),
    ensures
        nearest(points, x, count) == ranking(points, x),
        nearest(points, x, count) == nearest(points, x, points.len()),
{
    lemma_ranking(points, x);
    assert(nearest(points, x, count) =~= ranking(points, x));
}

/// The nearest points begin the list of any greater number of nearest
/// points.
pub proof fn lemma_nearest_is_prefix<T: UnsignedInt>(points: Seq<T>, x: T, count: nat, more: nat)
    requires
        count <= more,
    ensures
        nearest(points, x, count).is_prefix_of(nearest(points, x, more)),
{
    lemma_ranking(points, x);
}

} // verus!
