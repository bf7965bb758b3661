//! Laws that relate the nearest points to the inequalities of a list: the
//! position of a ranking satisfies the inequalities of what it ranked, and
//! every position that satisfies the inequalities of a list ranks that list
//! first.

use vstd::prelude::*;
use vstd::multiset::group_multiset_axioms;
use vstd::seq_lib::{lemma_multiset_commutative, to_multiset_contains, to_multiset_len};
use crate::fixed_int::UnsignedInt;
use crate::inequality::{
    adjacent_pairs, boundary_pairs, further_points, inequalities, is_list_of, satisfies,
    satisfies_all,
};
use crate::pattern::lemma_xor_injective;
use crate::ranking::{
    closer_or_equal, distance, lemma_ranking, lemma_ranking_unique, nearest, ranking,
};

verus! {

/// In a sequence without duplicates a value occurs once or not at all.
pub proof fn lemma_count_without_duplicates<A>(s: Seq<A>, v: A)
    requires
        s.no_duplicates(),
    ensures
        s.to_multiset().count(v) == if s.contains(v) {
            1nat
        } else {
            0nat
        },
{
    s.lemma_multiset_has_no_duplicates();
    to_multiset_contains(s, v);
}

/// What is left of a sequence without duplicates has no duplicates.
pub proof fn lemma_filter_without_duplicates<A>(s: Seq<A>, pred: spec_fn(A) -> bool)
    requires
        s.no_duplicates(),
    ensures
        s.filter(pred).no_duplicates(),
    decreases s.len(),
{
    reveal(Seq::filter);
    if s.len() > 0 {
        let init = s.drop_last();
        lemma_filter_without_duplicates(init, pred);
        if pred(s.last()) {
            if init.filter(pred).contains(s.last()) {
                init.lemma_filter_contains_rev(pred, s.last());
                let i = choose|i: int| 0 <= i < init.len() && init[i] == s.last();
                assert(s[i] == s[s.len() - 1]);
            }
        }
    }
}

/// The points that are left out of a list: those of the point set that the
/// list does not hold.
pub proof fn lemma_further_points_contains<T>(points: Seq<T>, list: Seq<T>, v: T)
    ensures
        further_points(points, list).contains(v) <==> points.contains(v) && !list.contains(v),
{
    let pred = |p: T| !list.contains(p);
    let rest = points.filter(pred);
    if rest.contains(v) {
        points.lemma_filter_contains_rev(pred, v);
        let i = choose|i: int| 0 <= i < rest.len() && rest[i] == v;
        points.lemma_filter_pred(pred, i);
    }
    if points.contains(v) && !list.contains(v) {
        let i = choose|i: int| 0 <= i < points.len() && points[i] == v;
        points.lemma_filter_contains(pred, i);
    }
}

/// Where a position satisfies the inequalities between the neighbours of a
/// list, it is strictly nearer to each point of the list than to the points
/// that follow it.
pub proof fn lemma_chain_strict<T: UnsignedInt>(list: Seq<T>, w: T, i: int, j: int)
    requires
        satisfies_all(w, adjacent_pairs(list)),
        0 <= i < j < list.len(),
    ensures
        distance(list[i], w) < distance(list[j], w),
    decreases j - i,
{
    let pairs = adjacent_pairs(list);
    assert(satisfies(w, pairs[j - 1]));
    if i < j - 1 {
        lemma_chain_strict(list, w, i, j - 1);
    }
}

/// The position from which the nearest points were taken satisfies their
/// inequalities, where no point occurs twice among them.
pub proof fn lemma_nearest_satisfies_inequalities<T: UnsignedInt>(points: Seq<T>, x: T, count: nat)
    requires
        nearest(points, x, count).no_duplicates(),
    ensures
        satisfies_all(x, inequalities(points, nearest(points, x, count))),
{
    let ranked = ranking(points, x);
    let list = nearest(points, x, count);
    let first = adjacent_pairs(list);
    let pairs = inequalities(points, list);
    lemma_ranking(points, x);
    assert forall|i: int| 0 <= i < pairs.len() implies satisfies(x, #[trigger] pairs[i]) by {
        if i < first.len() {
            assert(pairs[i] == (list[i], list[i + 1]));
            assert(closer_or_equal(x)(ranked[i], ranked[i + 1]));
            lemma_equal_distance(list[i], list[i + 1], x);
        } else {
            let rest = further_points(points, list);
            let u = rest[i - first.len()];
            assert(pairs[i] == (list.last(), u));
            assert(rest.contains(u));
            lemma_further_points_contains(points, list, u);
            assert(ranked.contains(u));
            let at = choose|at: int| 0 <= at < ranked.len() && ranked[at] == u;
            if at < list.len() {
                assert(list[at] == u);
            }
            assert(closer_or_equal(x)(ranked[list.len() - 1], ranked[at]));
            lemma_equal_distance(list.last(), u, x);
        }
    }
}

/// Two points at one distance from a position are the same point.
pub proof fn lemma_equal_distance<T: UnsignedInt>(a: T, b: T, x: T)
    ensures
        distance(a, x) == distance(b, x) ==> a == b,
{
    lemma_xor_injective(a.bits(), b.bits(), x.bits());
    T::lemma_bits_injective(a, b);
}

/// Every position that satisfies the inequalities of a list of points of a
/// point set without duplicates has the list as its nearest points.
pub proof fn lemma_witness_reproduces<T: UnsignedInt>(points: Seq<T>, list: Seq<T>, w: T)
    requires
        points.no_duplicates(),
        is_list_of(points, list),
        satisfies_all(w, inequalities(points, list)),
    ensures
        list.len() <= points.len(),
        nearest(points, w, list.len()) == list,
{
    broadcast use group_multiset_axioms;

    let leq = closer_or_equal(w);
    let first = adjacent_pairs(list);
    let second = boundary_pairs(points, list);
    let pairs = inequalities(points, list);
    let rest = further_points(points, list);
    let rest_ranked = ranking(rest, w);
    let all = list + rest_ranked;
    lemma_ranking(points, w);
    lemma_ranking(rest, w);
    assert forall|i: int| 0 <= i < first.len() implies satisfies(w, #[trigger] first[i]) by {
        assert(pairs[i] == first[i]);
    }
    assert forall|i: int, j: int| 0 <= i < j < list.len() implies list[i] != list[j] by {
        lemma_chain_strict(list, w, i, j);
    }
    assert(list.no_duplicates());
    lemma_filter_without_duplicates(points, |p: T| !list.contains(p));
    assert forall|v: T| all.to_multiset().count(v) == points.to_multiset().count(v) by {
        lemma_multiset_commutative(list, rest_ranked);
        lemma_count_without_duplicates(list, v);
        lemma_count_without_duplicates(rest, v);
        lemma_count_without_duplicates(points, v);
        lemma_further_points_contains(points, list, v);
        if list.contains(v) {
            let i = choose|i: int| 0 <= i < list.len() && list[i] == v;
            assert(points.contains(list[i]));
        }
    }
    assert(all.to_multiset() =~= points.to_multiset());
    assert forall|i: int, j: int| 0 <= i < j < all.len() implies #[trigger] leq(all[i], all[j]) by {
        if j < list.len() {
            lemma_chain_strict(list, w, i, j);
        } else if i >= list.len() {
            assert(leq(rest_ranked[i - list.len()], rest_ranked[j - list.len()]));
        } else {
            let u = rest_ranked[j - list.len()];
            assert(rest_ranked.contains(u));
            assert(rest.contains(u));
            let k = choose|k: int| 0 <= k < rest.len() && rest[k] == u;
            assert(second[k] == (list.last(), u));
            assert(pairs[first.len() + k] == second[k]);
            assert(satisfies(w, pairs[first.len() + k]));
            if i < list.len() - 1 {
                lemma_chain_strict(list, w, i, list.len() - 1);
            }
        }
    }
    lemma_ranking_unique(points, w, all);
    to_multiset_len(all);
    to_multiset_len(points);
    assert(all.take(list.len() as int) =~= list);
}

/// The round trip through the inverse. Where no point occurs twice among
/// the nearest points of a position, the position satisfies their
/// inequalities, and every position that satisfies them has the same nearest
/// points.
pub proof fn lemma_round_trip<T: UnsignedInt>(points: Seq<T>, x: T, count: nat)
    requires
        count <= points.len(),
        nearest(points, x, count).no_duplicates(),
    ensures
        satisfies_all(x, inequalities(points, nearest(points, x, count))),
        forall|w: T| #[trigger]
            satisfies_all(w, inequalities(points, nearest(points, x, count))) ==> nearest(
                points,
                w,
                count,
            ) == nearest(points, x, count),
{
    let list = nearest(points, x, count);
    lemma_nearest_satisfies_inequalities(points, x, count);
    assert forall|w: T| #[trigger] satisfies_all(w, inequalities(points, list)) implies nearest(
        points,
        w,
        count,
    ) == list by {
        lemma_same_nearest(points, x, count, w);
    }
}

/// A position that satisfies the inequalities of the nearest points of
/// another, among which no point occurs twice, has the same nearest points.
pub proof fn lemma_same_nearest<T: UnsignedInt>(points: Seq<T>, x: T, count: nat, w: T)
    requires
        count <= points.len(),
        nearest(points, x, count).no_duplicates(),
        satisfies_all(w, inequalities(points, nearest(points, x, count))),
    ensures
        nearest(points, w, count) == nearest(points, x, count),
{
    let leq = closer_or_equal(w);
    let ranked = ranking(points, x);
    let list = nearest(points, x, count);
    let tail = ranked.skip(count as int);
    let tail_ranked = ranking(tail, w);
    let all = list + tail_ranked;
    let first = adjacent_pairs(list);
    let second = boundary_pairs(points, list);
    let pairs = inequalities(points, list);
    let rest = further_points(points, list);
    lemma_ranking(points, x);
    lemma_ranking(points, w);
    lemma_ranking(tail, w);
    assert(list + tail =~= ranked);
    lemma_multiset_commutative(list, tail);
    lemma_multiset_commutative(list, tail_ranked);
    assert(all.to_multiset() =~= points.to_multiset());
    assert forall|i: int| 0 <= i < first.len() implies satisfies(w, #[trigger] first[i]) by {
        assert(pairs[i] == first[i]);
    }
    assert forall|i: int, j: int| 0 <= i < j < all.len() implies #[trigger] leq(all[i], all[j]) by {
        if j < count {
            lemma_chain_strict(list, w, i, j);
        } else if i >= count {
            assert(leq(tail_ranked[i - count], tail_ranked[j - count]));
        } else {
            let u = tail_ranked[j - count];
            assert(tail_ranked.contains(u));
            assert(tail.contains(u));
            let t = choose|t: int| 0 <= t < tail.len() && tail[t] == u;
            assert(ranked[count + t] == u);
            assert(ranked.contains(u));
            if i < count - 1 {
                lemma_chain_strict(list, w, i, count - 1);
            }
            if list.contains(u) {
                let m = choose|m: int| 0 <= m < list.len() && list[m] == u;
                assert(closer_or_equal(x)(ranked[m], ranked[count - 1]));
                assert(closer_or_equal(x)(ranked[count - 1], ranked[count + t]));
                lemma_equal_distance(list[m], list[count - 1], x);
            } else {
                lemma_further_points_contains(points, list, u);
                let k = choose|k: int| 0 <= k < rest.len() && rest[k] == u;
                assert(second[k] == (list.last(), u));
                assert(pairs[first.len() + k] == second[k]);
                assert(satisfies(w, pairs[first.len() + k]));
            }
        }
    }
    lemma_ranking_unique(points, w, all);
    assert(all.take(count as int) =~= list);
}

/// A position from which a list holds the nearest points of a point set
/// without duplicates satisfies the inequalities of the list.
pub proof fn lemma_reachable_list_is_satisfied<T: UnsignedInt>(points: Seq<T>, list: Seq<T>, x: T)
    requires
        points.no_duplicates(),
        nearest(points, x, list.len()) == list,
    ensures
        satisfies_all(x, inequalities(points, list)),
{
    let ranked = ranking(points, x);
    lemma_ranking(points, x);
    assert forall|i: int, j: int| 0 <= i < j < list.len() implies list[i] != list[j] by {
        assert(list[i] == ranked[i] && list[j] == ranked[j]);
    }
    lemma_nearest_satisfies_inequalities(points, x, list.len());
}

/// For a list of points of a point set without duplicates, the positions
/// that satisfy the inequalities of the list are those from which the list
/// holds the nearest points: where no position has the list as its nearest
/// points, no position satisfies its inequalities.
pub proof fn lemma_satisfied_is_reachable<T: UnsignedInt>(points: Seq<T>, list: Seq<T>)
    requires
        points.no_duplicates(),
        is_list_of(points, list),
    ensures
        forall|x: T| #[trigger]
            satisfies_all(x, inequalities(points, list)) <==> nearest(points, x, list.len())
                == list,
{
    assert forall|x: T| #[trigger]
        satisfies_all(x, inequalities(points, list)) <==> nearest(points, x, list.len())
            == list by {
        if satisfies_all(x, inequalities(points, list)) {
            lemma_witness_reproduces(points, list, x);
        }
        if nearest(points, x, list.len()) == list {
            lemma_reachable_list_is_satisfied(points, list, x);
        }
    }
}

} // verus!
