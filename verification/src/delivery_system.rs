//! A food delivery system: farms at positions, and the farms nearest to a
//! customer by the XOR distance.

use vstd::prelude::*;
use crate::fixed_int::UnsignedInt;
use crate::inequality::{inequalities, is_least_witness, is_list_of, satisfies_all};
use crate::ranking::nearest;
use crate::xor_distance::XorDistance;

verus! {

/// The farms of a delivery system.
pub struct FoodDeliverySystem<T: UnsignedInt> {
    xor_distance: XorDistance<T>,
}

impl<T: UnsignedInt> View for FoodDeliverySystem<T> {
    type V = Seq<T>;

    closed spec fn view(&self) -> Seq<T> {
        self.xor_distance@
    }
}

impl<T: UnsignedInt> FoodDeliverySystem<T> {
    /// The delivery system with farms at the given points.
    pub fn new(points: Vec<T>) -> (r: Self)
        ensures
            r@ == points@,
    {
        let xor_distance = XorDistance::new(points);
        Self { xor_distance }
    }

    /// The `count` nearest farms to `position`, from the nearest to the
    /// furthest; all the farms where there are fewer than `count`.
    pub fn closest_farms(&self, position: T, count: usize) -> (r: Vec<T>)
        ensures
            r@ == nearest(self@, position, count as nat),
    {
        self.xor_distance.closest(position, count)
    }

    /// The position with the fewest bits set that satisfies the inequalities
    /// of the list; `None` where no position satisfies them. For a list of
    /// farms of a system without two farms at one point, the positions that
    /// satisfy the inequalities are those from which the list holds the
    /// nearest farms, in their order.
    pub fn reverse_closest_farms(&self, closest_farms: &[T]) -> (r: Option<T>)
        ensures
            match r {
                Some(w) => is_least_witness(w, inequalities(self@, closest_farms@)),
                None => forall|x: T| !satisfies_all(x, inequalities(self@, closest_farms@)),
            },
            self@.no_duplicates() && is_list_of(self@, closest_farms@) ==> match r {
                Some(w) => nearest(self@, w, closest_farms@.len()) == closest_farms@,
                None => forall|x: T| nearest(self@, x, closest_farms@.len()) != closest_farms@,
            },
    {
        self.xor_distance.reverse_closest(closest_farms)
    }
}

} // verus!
