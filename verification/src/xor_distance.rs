//! The XOR distance over a set of points: the nearest points to a position,
//! and a position from which a given list is the list of the nearest points.

use vstd::prelude::*;
use vstd::relations::sorted_by;
use vstd::seq_lib::to_multiset_len;
use crate::bitops::BitOps;
use crate::bits::{agrees, lemma_padded_value_agrees, lemma_padded_value_bits, Bits};
use crate::fixed_int::UnsignedInt;
use crate::inequality::{
    adjacent_pairs, boundary_pairs, deciding_bit, further_points, inequalities,
    is_least_witness, is_list_of, lemma_deciding_bit_in_range, lemma_inequality_is_bit, required_bit,
    restrictions, satisfies, satisfies_all,
};
use crate::pattern::{bit_at, lemma_bitwise_subset, lemma_xor_injective};
use crate::ranking::{at_distance, closer_or_equal, distance, lemma_ranking_unique, nearest};
use crate::round_trip::{lemma_reachable_list_is_satisfied, lemma_witness_reproduces};

verus! {

/// The XOR distance of the point `p` to the position `x`.
pub fn distance_to<T: UnsignedInt>(p: T, x: T) -> (d: u128)
    ensures
        d == distance(p, x),
{
    p.bit_xor(x).magnitude()
}

/// `sort_by_key` of std's slices, with the distance to `x` as the key: the
/// points are put in the order of their keys, those with equal keys in the
/// order that they had.
#[verifier::external_body]
fn sort_by_distance<T: UnsignedInt>(points: &mut Vec<T>, x: T)
    ensures
        final(points)@.to_multiset() == old(points)@.to_multiset(),
        sorted_by(final(points)@, closer_or_equal(x)),
        forall|key: u128| #[trigger]
            at_distance(final(points)@, x, key) == at_distance(old(points)@, x, key),
{
    points.sort_by_key(|p| distance_to(*p, x));
}

/// Whether the list holds the point.
fn contains_point<T: UnsignedInt>(list: &[T], point: T) -> (r: bool)
    ensures
        r == list@.contains(point),
{
    let key = point.magnitude();
    let mut i: usize = 0;
    while i < list.len()
        invariant
            i <= list.len(),
            key == point.bits(),
            forall|j: int| 0 <= j < i ==> list@[j] != point,
        decreases list.len() - i,
    {
        if list[i].magnitude() == key {
            proof {
                T::lemma_bits_injective(list@[i as int], point);
            }
            return true;
        }
        i += 1;
    }
    false
}

/// A copy of the points.
fn copy_points<T: UnsignedInt>(points: &Vec<T>) -> (r: Vec<T>)
    ensures
        r@ == points@,
{
    let mut copy: Vec<T> = Vec::with_capacity(points.len());
    let mut i: usize = 0;
    while i < points.len()
        invariant
            i <= points.len(),
            copy@ == points@.take(i as int),
        decreases points.len() - i,
    {
        copy.push(points[i]);
        proof {
            assert(points@.take(i + 1) =~= points@.take(i as int).push(points@[i as int]));
        }
        i += 1;
    }
    proof {
        assert(points@.take(i as int) =~= points@);
    }
    copy
}

/// A set of points, ranked by their XOR distance to a position.
pub struct XorDistance<T: UnsignedInt> {
    points: Vec<T>,
    bit_size: usize,
}

impl<T: UnsignedInt> View for XorDistance<T> {
    type V = Seq<T>;

    closed spec fn view(&self) -> Seq<T> {
        self.points@
    }
}

impl<T: UnsignedInt> XorDistance<T> {
    #[verifier::type_invariant]
    spec fn well_formed(self) -> bool {
        self.bit_size == T::width()
    }

    /// The set of the given points.
    pub fn new(points: Vec<T>) -> (r: Self)
        ensures
            r@ == points@,
    {
        let bit_size = Bits::bit_size::<T>();
        Self { points, bit_size }
    }

    /// The `count` nearest points to `x`, from the nearest to the furthest;
    /// all the points where there are fewer than `count`.
    pub fn closest(&self, x: T, count: usize) -> (r: Vec<T>)
        ensures
            r@ == nearest(self@, x, count as nat),
    {
        let mut closest_sorted = copy_points(&self.points);
        sort_by_distance(&mut closest_sorted, x);
        proof {
            lemma_ranking_unique(self@, x, closest_sorted@);
            to_multiset_len(closest_sorted@);
            to_multiset_len(self@);
        }
        closest_sorted.truncate(count);
        closest_sorted
    }

    /// The position with the fewest bits set that satisfies the inequalities
    /// of the list; `None` where no position satisfies them. For a list of
    /// points of a point set without duplicates, the positions that satisfy
    /// the inequalities are those from which the list holds the nearest
    /// points, in their order.
    pub fn reverse_closest(&self, closest_points: &[T]) -> (r: Option<T>)
        ensures
            match r {
                Some(w) => is_least_witness(w, inequalities(self@, closest_points@)),
                None => forall|x: T| !satisfies_all(x, inequalities(self@, closest_points@)),
            },
            self@.no_duplicates() && is_list_of(self@, closest_points@) ==> match r {
                Some(w) => nearest(self@, w, closest_points@.len()) == closest_points@,
                None => forall|x: T| nearest(self@, x, closest_points@.len()) != closest_points@,
            },
    {
        let inequalities = self.form_inequalities(closest_points);
        if let Some(bit_rep) = self.form_bits_restrictions_from_inequalities(
            inequalities.as_slice(),
        ) {
            let position = bit_rep.form_zero_padded_number::<T>().unwrap();
            proof {
                T::lemma_width();
                lemma_padded_value_agrees(bit_rep@);
                assert forall|x: T| #[trigger] satisfies_all(x, inequalities@) implies position.bits()
                    & x.bits() == position.bits() by {
                    assert forall|i: nat| i < 128 && bit_at(position.bits(), i) implies bit_at(
                        x.bits(),
                        i,
                    ) by {
                        lemma_padded_value_bits(bit_rep@, i);
                    }
                    lemma_bitwise_subset(position.bits(), x.bits());
                }
                if self@.no_duplicates() && is_list_of(self@, closest_points@) {
                    lemma_witness_reproduces(self@, closest_points@, position);
                }
            }
            return Some(position);
        }
        proof {
            if self@.no_duplicates() && is_list_of(self@, closest_points@) {
                assert forall|x: T|
                    nearest(self@, x, closest_points@.len()) != closest_points@ by {
                    if nearest(self@, x, closest_points@.len()) == closest_points@ {
                        lemma_reachable_list_is_satisfied(self@, closest_points@, x);
                    }
                }
            }
        }
        None
    }

    /// The inequalities of the list: those between its neighbours, then
    /// those between its last point and the points that are not in it.
    pub fn form_inequalities(&self, closest_points: &[T]) -> (r: Vec<(T, T)>)
        ensures
            r@ == inequalities(self@, closest_points@),
    {
        let mut inequalities = self.compose_closest_points_inequalities(closest_points);
        let mut further_inequalities = self.compose_further_points_inequalities(closest_points);
        inequalities.append(&mut further_inequalities);
        inequalities
    }

    /// The inequalities between the neighbours in the list: each point is
    /// nearer than the one that follows it.
    pub fn compose_closest_points_inequalities(&self, closest_points: &[T]) -> (r: Vec<(T, T)>)
        ensures
            r@ == adjacent_pairs(closest_points@),
    {
        let size = closest_points.len();
        let mut inequalities: Vec<(T, T)> = Vec::with_capacity(size);
        if size == 0 {
            return inequalities;
        }
        let mut i: usize = 0;
        while i < size - 1
            invariant
                size == closest_points.len(),
                i < size,
                inequalities@ == adjacent_pairs(closest_points@).take(i as int),
            decreases size - i,
        {
            let a = closest_points[i];
            let b = closest_points[i + 1];
            inequalities.push((a, b));
            proof {
                let pairs = adjacent_pairs(closest_points@);
                assert(pairs.take(i + 1) =~= pairs.take(i as int).push(pairs[i as int]));
            }
            i += 1;
        }
        proof {
            let pairs = adjacent_pairs(closest_points@);
            assert(pairs.take(i as int) =~= pairs);
        }
        inequalities
    }

    /// The inequalities between the last point of the list and the points
    /// that are not in it: the last point is nearer than each of them. None
    /// for an empty list.
    pub fn compose_further_points_inequalities(&self, closest_points: &[T]) -> (r: Vec<(T, T)>)
        ensures
            r@ == boundary_pairs(self@, closest_points@),
    {
        if let Some(a) = closest_points.last() {
            let further_points = self.get_further_points(closest_points);
            let size = further_points.len();
            let mut inequalities: Vec<(T, T)> = Vec::with_capacity(size);
            let ghost pairs = boundary_pairs(self@, closest_points@);
            let mut i: usize = 0;
            while i < size
                invariant
                    size == further_points.len(),
                    i <= size,
                    closest_points@.len() > 0,
                    *a == closest_points@.last(),
                    further_points@ == crate::inequality::further_points(
                        self@,
                        closest_points@,
                    ),
                    pairs == boundary_pairs(self@, closest_points@),
                    inequalities@ == pairs.take(i as int),
                decreases size - i,
            {
                let b = further_points[i];
                inequalities.push((*a, b));
                proof {
                    assert(pairs.take(i + 1) =~= pairs.take(i as int).push(pairs[i as int]));
                }
                i += 1;
            }
            proof {
                assert(pairs.take(i as int) =~= pairs);
            }
            return inequalities;
        }
        Vec::new()
    }

    /// The points that are not in the list, in the order of the point set.
    pub fn get_further_points(&self, closest_points: &[T]) -> (r: Vec<T>)
        ensures
            r@ == further_points(self@, closest_points@),
    {
        let mut further_points: Vec<T> = Vec::new();
        let ghost excluded = |p: T| !closest_points@.contains(p);
        let mut i: usize = 0;
        while i < self.points.len()
            invariant
                i <= self.points.len(),
                self.points@ == self@,
                excluded == (|p: T| !closest_points@.contains(p)),
                further_points@ == self@.take(i as int).filter(excluded),
            decreases self.points.len() - i,
        {
            let point = self.points[i];
            proof {
                assert(self@.take(i + 1) =~= self@.take(i as int).push(point));
                self@.take(i as int).lemma_filter_push(point, excluded);
            }
            if !contains_point(closest_points, point) {
                further_points.push(point);
            }
            i += 1;
        }
        proof {
            assert(self@.take(i as int) =~= self@);
        }
        further_points
    }

    /// The register of the bits that the inequalities require of a position.
    /// `None` where no position satisfies them all: two of them require
    /// opposite values of one bit, or one is between equal points.
    pub fn form_bits_restrictions_from_inequalities(&self, inequalities: &[(T, T)]) -> (r: Option<
        Bits,
    >)
        ensures
            match r {
                Some(bit_rep) => {
                    &&& bit_rep@ == restrictions(inequalities@)
                    &&& bit_rep@.len() == T::width()
                    &&& forall|x: T|
                        agrees(bit_rep@, x.bits()) <==> #[trigger] satisfies_all(x, inequalities@)
                },
                None => forall|x: T| !satisfies_all(x, inequalities@),
            },
    {
        let mut bit_rep = Bits::new::<T>();
        let mut i: usize = 0;
        while i < inequalities.len()
            invariant
                i <= inequalities.len(),
                bit_rep@ == restrictions(inequalities@.take(i as int)),
                bit_rep@.len() == T::width(),
                forall|x: T|
                    agrees(bit_rep@, x.bits()) <==> #[trigger] satisfies_all(
                        x,
                        inequalities@.take(i as int),
                    ),
            decreases inequalities.len() - i,
        {
            let ghost before = bit_rep@;
            let ghost done = inequalities@.take(i as int);
            let ghost next = inequalities@.take(i + 1);
            proof {
                assert(next.drop_last() =~= done);
                assert(next.last() == inequalities@[i as int]);
            }
            if self.add_bit_restriction_from_inequality(&inequalities[i], &mut bit_rep).is_err() {
                proof {
                    assert forall|x: T| !satisfies_all(x, inequalities@) by {
                        if satisfies_all(x, inequalities@) {
                            assert forall|j: int| 0 <= j < done.len() implies satisfies(
                                x,
                                #[trigger] done[j],
                            ) by {
                                assert(done[j] == inequalities@[j]);
                            }
                            assert(satisfies_all(x, done));
                            assert(agrees(before, x.bits()));
                            assert(satisfies(x, inequalities@[i as int]));
                            assert(false);
                        }
                    }
                }
                return None;
            }
            proof {
                assert forall|x: T|
                    agrees(bit_rep@, x.bits()) <==> #[trigger] satisfies_all(x, next) by {
                    if satisfies_all(x, next) {
                        assert forall|j: int| 0 <= j < done.len() implies satisfies(
                            x,
                            #[trigger] done[j],
                        ) by {
                            assert(done[j] == next[j]);
                        }
                        assert(satisfies_all(x, done));
                        assert(agrees(before, x.bits()));
                        assert(satisfies(x, next[i as int]));
                        assert(agrees(bit_rep@, x.bits()));
                    }
                    if agrees(bit_rep@, x.bits()) {
                        assert(agrees(before, x.bits()));
                        assert(satisfies_all(x, done));
                    }
                    if satisfies_all(x, done) && satisfies(x, inequalities@[i as int]) {
                        assert forall|j: int| 0 <= j < next.len() implies satisfies(
                            x,
                            #[trigger] next[j],
                        ) by {
                            if j < i {
                                assert(next[j] == done[j]);
                            }
                        }
                    }
                }
            }
            i += 1;
        }
        proof {
            assert(inequalities@.take(i as int) =~= inequalities@);
        }
        Some(bit_rep)
    }

    /// Adds to the register the bit that the inequality requires of a
    /// position. Fails, and leaves the register as it was, where the bit is
    /// decided to be the opposite, or the two points are equal.
    pub fn add_bit_restriction_from_inequality(&self, pair: &(T, T), bit_rep: &mut Bits) -> (r:
        Result<(), &'static str>)
        requires
            old(bit_rep)@.len() == T::width(),
        ensures
            r is Err <==> pair.0 == pair.1 || old(bit_rep)@[deciding_bit(*pair) as int] == Some(
                !required_bit(*pair),
            ),
            r is Err ==> final(bit_rep)@ == old(bit_rep)@,
            r matches Err(e) ==> e@ == if pair.0 == pair.1 {
                "Equal points can not be ordered by distance!"@
            } else {
                "Already decided bit value can not be changed!"@
            },
            r is Ok ==> deciding_bit(*pair) < T::width() && final(bit_rep)@ == old(bit_rep)@.update(
                deciding_bit(*pair) as int,
                Some(required_bit(*pair)),
            ),
            r is Err ==> forall|x: T| !(agrees(old(bit_rep)@, x.bits()) && satisfies(x, *pair)),
            r is Ok ==> forall|x: T|
                #[trigger] agrees(final(bit_rep)@, x.bits()) <==> agrees(old(bit_rep)@, x.bits())
                    && satisfies(x, *pair),
    {
        let a = pair.0;
        let b = pair.1;
        let xor_distance: T = a.bit_xor(b);
        proof {
            use_type_invariant(self);
            T::lemma_unsigned();
            T::lemma_width();
            T::lemma_bits_injective(a, b);
            lemma_xor_injective(a.bits(), b.bits(), b.bits());
            assert(b.bits() ^ b.bits() == 0) by (bit_vector);
            assert forall|x: T| pair.0 == pair.1 implies !satisfies(x, *pair) by {
                lemma_inequality_is_bit(x, *pair);
            }
        }
        if xor_distance.is_zero() {
            return Err("Equal points can not be ordered by distance!");
        }
        proof {
            lemma_deciding_bit_in_range(*pair);
        }
        let bit_index = (self.bit_size as u32 - xor_distance.leading_zeros() - 1) as usize;
        let a_bit = a.is_bit_set(bit_index);
        let r = bit_rep.set_bit_within_constrains(bit_index, a_bit);
        proof {
            let m = deciding_bit(*pair);
            let slots = old(bit_rep)@;
            assert forall|x: T| !(r is Ok) implies !(agrees(slots, x.bits()) && satisfies(
                x,
                *pair,
            )) by {
                lemma_inequality_is_bit(x, *pair);
            }
            assert forall|x: T| r is Ok implies (#[trigger] agrees(bit_rep@, x.bits()) <==> agrees(
                slots,
                x.bits(),
            ) && satisfies(x, *pair)) by {
                lemma_inequality_is_bit(x, *pair);
                if agrees(bit_rep@, x.bits()) {
                    assert forall|i: nat| i < slots.len() && slots[i as int] is Some implies bit_at(
                        x.bits(),
                        i,
                    ) == slots[i as int]->0 by {
                        assert(bit_rep@[i as int] is Some);
                    }
                    assert(bit_rep@[m as int] is Some);
                }
            }
        }
        r
    }
}

} // verus!
