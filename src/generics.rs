//! Generic functions and types: the largest element of a list, and points
//! whose coordinates may have different types.

use vstd::prelude::*;
use vstd::laws_cmp::obeys_partial_cmp_spec_properties;
use vstd::std_specs::cmp::PartialOrdSpec;
use core::cmp::Ordering;

verus! {

/// The largest value of a non-empty list of integers.
pub fn largest_i32(list: &[i32]) -> (r: i32)
    requires
        list@.len() > 0,
    ensures
        list@.contains(r),
        forall|i: int| 0 <= i < list@.len() ==> list@[i] <= r,
{
    let mut largest = list[0];
    let mut k: usize = 0;
    while k < list.len()
        invariant
            k <= list@.len(),
            list@.contains(largest),
            forall|i: int| 0 <= i < k ==> list@[i] <= largest,
        decreases list@.len() - k,
    {
        let item = list[k];
        if item > largest {
            largest = item;
        }
        k = k + 1;
    }
    largest
}

/// The largest character of a non-empty list, by code point.
pub fn largest_char(list: &[char]) -> (r: char)
    requires
        list@.len() > 0,
    ensures
        list@.contains(r),
        forall|i: int| 0 <= i < list@.len() ==> list@[i] <= r,
{
    let mut largest = list[0];
    let mut k: usize = 0;
    while k < list.len()
        invariant
            k <= list@.len(),
            list@.contains(largest),
            forall|i: int| 0 <= i < k ==> list@[i] <= largest,
        decreases list@.len() - k,
    {
        let item = list[k];
        if item > largest {
            largest = item;
        }
        k = k + 1;
    }
    largest
}

/// The first element of a non-empty list that no later element exceeds.
/// Where the type's `>` follows its comparison specification and that
/// comparison is transitive, no element of the list is greater than it.
pub fn largest<T: Copy + PartialOrd>(list: &[T]) -> (r: T)
    requires
        list@.len() > 0,
    ensures
        list@.contains(r),
        T::obeys_partial_cmp_spec() && obeys_partial_cmp_spec_properties::<T>() ==> forall|
            i: int,
        |
            0 <= i < list@.len() ==> list@[i].partial_cmp_spec(&r) != Some(Ordering::Greater),
{
    let mut largest = list[0];
    let mut k: usize = 0;
    while k < list.len()
        invariant
            k <= list@.len(),
            list@.contains(largest),
            T::obeys_partial_cmp_spec() && obeys_partial_cmp_spec_properties::<T>() ==> forall|
                i: int,
            |
                0 <= i < k ==> list@[i].partial_cmp_spec(&largest) != Some(Ordering::Greater),
        decreases list@.len() - k,
    {
        let item = list[k];
        if item > largest {
            proof {
                if T::obeys_partial_cmp_spec() && obeys_partial_cmp_spec_properties::<T>() {
                    reveal(obeys_partial_cmp_spec_properties);
                    assert forall|i: int| 0 <= i < k implies list@[i].partial_cmp_spec(&item)
                        != Some(Ordering::Greater) by {
                        if list@[i].partial_cmp_spec(&item) == Some(Ordering::Greater) {
                            assert(item.partial_cmp_spec(&largest) == Some(Ordering::Greater));
                            assert(list@[i].partial_cmp_spec(&largest) == Some(Ordering::Greater));
                        }
                    }
                }
            }
            largest = item;
        }
        k = k + 1;
    }
    largest
}

/// A point whose two coordinates share one type.
pub struct Point<T> {
    pub x: T,
    pub y: T,
}

impl<T> Point<T> {
    /// The first coordinate.
    pub fn x(&self) -> (r: &T)
        ensures
            *r == self.x,
    {
        &self.x
    }
}

/// A point whose coordinates may have different types.
pub struct VersatilePoint<U: Copy, V: Copy> {
    pub x: U,
    pub y: V,
}

impl<U: Copy, V: Copy> VersatilePoint<U, V> {
    /// A point with this point's first coordinate and `other`'s second.
    pub fn swap_y<T: Copy, W: Copy>(&self, other: &VersatilePoint<T, W>) -> (r: VersatilePoint<U, W>)
        ensures
            r.x == self.x,
            r.y == other.y,
    {
        VersatilePoint { x: self.x, y: other.y }
    }
}

} // verus!
