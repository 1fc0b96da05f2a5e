//! Largest elements, and small generic containers.
use vstd::laws_cmp::obeys_partial_cmp_spec_properties;
use core::cmp::Ordering;
use vstd::prelude::*;
use vstd::std_specs::cmp::PartialOrdSpec;

verus! {

/// The largest number of a non-empty list.
pub fn largest_i32(list: &[i32]) -> (r: i32)
    requires
        list@.len() > 0,
    ensures
        list@.contains(r),
        forall|i: int| 0 <= i < list@.len() ==> list@[i] <= r,
{
    let mut largest = list[0];
    let mut best: usize = 0;
    let mut k: usize = 1;
    while k < list.len()
        invariant
            1 <= k <= list@.len(),
            best < k,
            list@[best as int] == largest,
            forall|i: int| 0 <= i < k ==> list@[i] <= largest,
        decreases list@.len() - k,
    {
        if list[k] > largest {
            largest = list[k];
            best = k;
        }
        k = k + 1;
    }
    assert(list@[best as int] == largest);
    largest
}

/// The largest character of a non-empty list.
pub fn largest_char(list: &[char]) -> (r: char)
    requires
        list@.len() > 0,
    ensures
        list@.contains(r),
        forall|i: int| 0 <= i < list@.len() ==> list@[i] <= r,
{
    let mut largest = list[0];
    let mut best: usize = 0;
    let mut k: usize = 1;
    while k < list.len()
        invariant
            1 <= k <= list@.len(),
            best < k,
            list@[best as int] == largest,
            forall|i: int| 0 <= i < k ==> list@[i] <= largest,
        decreases list@.len() - k,
    {
        if list[k] > largest {
            largest = list[k];
            best = k;
        }
        k = k + 1;
    }
    assert(list@[best as int] == largest);
    largest
}

/// `T`'s comparison is the one its specification describes, and that order is
/// consistent (antisymmetric and transitive).
pub open spec fn ordered<T: PartialOrd>() -> bool {
    T::obeys_partial_cmp_spec() && obeys_partial_cmp_spec_properties::<T>()
}

/// No element of `list` is greater than `x`.
pub open spec fn is_upper_bound<T: PartialOrd>(list: Seq<T>, x: T) -> bool {
    forall|i: int| 0 <= i < list.len() ==> #[trigger] list[i].partial_cmp_spec(&x) != Some(
        Ordering::Greater,
    )
}

/// The first of the largest elements of a non-empty list.
pub fn largest<T: PartialOrd + Copy>(list: &[T]) -> (r: T)
    requires
        list@.len() > 0,
    ensures
        list@.contains(r),
        ordered::<T>() ==> is_upper_bound(list@, r),
{
    let r = largest3(list);
    *r
}

/// A reference to the first of the largest elements of a non-empty list.
pub fn largest3<T: PartialOrd>(list: &[T]) -> (r: &T)
    requires
        list@.len() > 0,
    ensures
        list@.contains(*r),
        ordered::<T>() ==> is_upper_bound(list@, *r),
{
    let mut largest = &list[0];
    let mut best: usize = 0;
    let mut k: usize = 1;
    proof {
        if ordered::<T>() {
            reveal(obeys_partial_cmp_spec_properties);
            let x = list@[0];
            assert(x.partial_cmp_spec(&x) == Some(Ordering::Less) <==> x.partial_cmp_spec(&x)
                == Some(Ordering::Greater));
            assert(x.partial_cmp_spec(&x) != Some(Ordering::Greater));
        }
    }
    while k < list.len()
        invariant
            1 <= k <= list@.len(),
            best < k,
            list@[best as int] == *largest,
            ordered::<T>() ==> forall|i: int|
                0 <= i < k ==> #[trigger] list@[i].partial_cmp_spec(largest) != Some(
                    Ordering::Greater,
                ),
        decreases list@.len() - k,
    {
        let item = &list[k];
        if item > largest {
            proof {
                if ordered::<T>() {
                    reveal(obeys_partial_cmp_spec_properties);
                    assert forall|i: int| 0 <= i < k + 1 implies #[trigger] list@[i].partial_cmp_spec(
                        item,
                    ) != Some(Ordering::Greater) by {
                        if i == k {
                            assert(item.partial_cmp_spec(largest) == Some(Ordering::Greater));
                            assert(largest.partial_cmp_spec(item) == Some(Ordering::Less));
                        }
                    }
                }
            }
            largest = item;
            best = k;
        } else {
            proof {
                if ordered::<T>() {
                    assert(list@[k as int].partial_cmp_spec(largest) != Some(Ordering::Greater));
                }
            }
        }
        k = k + 1;
    }
    assert(list@[best as int] == *largest);
    largest
}

/// Two coordinates of one type.
pub struct Point<T> {
    pub x: T,
    pub y: T,
}

impl<T> Point<T> {
    pub fn x(&self) -> (r: &T)
        ensures
            *r == self.x,
    {
        &self.x
    }
}

/// Two coordinates of possibly different types.
pub struct Point3<T, U> {
    pub x: T,
    pub y: U,
}

impl<T, U> Point3<T, U> {
    /// The `x` of `self` with the `y` of `other`.
    pub fn mix_up<V, W>(self, other: Point3<V, W>) -> (r: Point3<T, W>)
        ensures
            r.x == self.x,
            r.y == other.y,
    {
        Point3 { x: self.x, y: other.y }
    }
}

/// Two values of one type.
pub struct Pair<T> {
    pub x: T,
    pub y: T,
}

impl<T> Pair<T> {
    pub fn new(x: T, y: T) -> (r: Pair<T>)
        ensures
            r.x == x,
            r.y == y,
    {
        Pair { x, y }
    }
}

impl<T: PartialOrd> Pair<T> {
    /// The member that is shown as the largest: `x` when `x >= y`, else `y`.
    pub fn larger_member(&self) -> (r: &T)
        ensures
            T::obeys_partial_cmp_spec() ==> *r == if self.x.partial_cmp_spec(&self.y) matches Some(
                Ordering::Greater | Ordering::Equal,
            ) {
                self.x
            } else {
                self.y
            },
    {
        if self.x >= self.y {
            &self.x
        } else {
            &self.y
        }
    }
}

} // verus!
