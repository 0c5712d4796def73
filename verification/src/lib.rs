//! An ordering and ordered-data-combination toolkit: a [`Collate`] trait that
//! standardizes three-way comparison over a value type, plus algorithms built
//! on top of it — range/overlap classification, composite-key bisection, and
//! order-preserving combination (merge and set-difference) of sorted
//! sequences.

use vstd::prelude::*;

use core::cmp::Ordering;
use core::marker::PhantomData;

pub mod bisect;
pub mod diff;
pub mod merge;
pub mod overlap;
pub mod range;
pub mod try_diff;
pub mod try_merge;

pub use overlap::{Bound, Overlap};
pub use range::Range;

verus! {

/// Return the opposite of an [`Ordering`]: `Less` and `Greater` swap,
/// `Equal` stays.
pub open spec fn flip(o: Ordering) -> Ordering {
    match o {
        Ordering::Less => Ordering::Greater,
        Ordering::Equal => Ordering::Equal,
        Ordering::Greater => Ordering::Less,
    }
}

/// A collator for type `Value`: a value embodying a strict total order.
///
/// The spec-level order is `cmp_spec`; `compare` is its executable form.
/// Implementations must prove `antisymmetry` and `transitivity`, so every
/// collator defines a valid total order (with `Equal` an equivalence
/// relation, not necessarily spec equality).
pub trait Collate: Sized {
    type Value;

    /// The collation of `left` relative to `right`, as a mathematical function.
    spec fn cmp_spec(&self, left: Self::Value, right: Self::Value) -> Ordering;

    /// Swapping the arguments flips the result.
    proof fn antisymmetry(&self, a: Self::Value, b: Self::Value)
        ensures
            self.cmp_spec(a, b) == flip(self.cmp_spec(b, a)),
    ;

    /// `a <= b` and `b <= c` imply `a <= c`, where `x <= y` means
    /// `cmp_spec(x, y) != Greater`.
    proof fn transitivity(&self, a: Self::Value, b: Self::Value, c: Self::Value)
        requires
            self.cmp_spec(a, b) != Ordering::Greater,
            self.cmp_spec(b, c) != Ordering::Greater,
        ensures
            self.cmp_spec(a, c) != Ordering::Greater,
    ;

    /// Return the collation of the `left` value relative to the `right` value.
    fn compare(&self, left: &Self::Value, right: &Self::Value) -> (r: Ordering)
        ensures
            r == self.cmp_spec(*left, *right),
    ;
}

/// Collation equality is symmetric.
pub proof fn lemma_eq_sym<C: Collate>(collator: C, a: <C as Collate>::Value, b: <C as Collate>::Value)
    requires
        collator.cmp_spec(a, b) == Ordering::Equal,
    ensures
        collator.cmp_spec(b, a) == Ordering::Equal,
{
    collator.antisymmetry(a, b);
}

/// A strictly lesser value stays strictly lesser across a non-greater step.
pub proof fn lemma_less_le_less<C: Collate>(
    collator: C,
    a: <C as Collate>::Value,
    b: <C as Collate>::Value,
    c: <C as Collate>::Value,
)
    requires
        collator.cmp_spec(a, b) == Ordering::Less,
        collator.cmp_spec(b, c) != Ordering::Greater,
    ensures
        collator.cmp_spec(a, c) == Ordering::Less,
{
    collator.transitivity(a, b, c);
    if collator.cmp_spec(a, c) == Ordering::Equal {
        collator.antisymmetry(a, c);
        collator.transitivity(b, c, a);
        collator.antisymmetry(a, b);
    }
}

/// A non-greater step followed by a strictly lesser one is strictly lesser.
pub proof fn lemma_le_less_less<C: Collate>(
    collator: C,
    a: <C as Collate>::Value,
    b: <C as Collate>::Value,
    c: <C as Collate>::Value,
)
    requires
        collator.cmp_spec(a, b) != Ordering::Greater,
        collator.cmp_spec(b, c) == Ordering::Less,
    ensures
        collator.cmp_spec(a, c) == Ordering::Less,
{
    collator.transitivity(a, b, c);
    if collator.cmp_spec(a, c) == Ordering::Equal {
        collator.antisymmetry(a, c);
        collator.transitivity(c, a, b);
        collator.antisymmetry(b, c);
    }
}

/// Collation equality is transitive.
pub proof fn lemma_eq_trans<C: Collate>(
    collator: C,
    a: <C as Collate>::Value,
    b: <C as Collate>::Value,
    c: <C as Collate>::Value,
)
    requires
        collator.cmp_spec(a, b) == Ordering::Equal,
        collator.cmp_spec(b, c) == Ordering::Equal,
    ensures
        collator.cmp_spec(a, c) == Ordering::Equal,
{
    collator.antisymmetry(a, b);
    collator.antisymmetry(b, c);
    collator.transitivity(a, b, c);
    collator.transitivity(c, b, a);
    collator.antisymmetry(a, c);
}

/// Comparison of borrowed values of type `T` under a [`Collate`] order.
pub trait CollateRef<T>: Collate {
    /// The spec-level order on `T` values.
    spec fn cmp_ref_spec(&self, left: T, right: T) -> Ordering;

    /// Return the collation of the `left` reference relative to the `right`
    /// reference.
    fn compare_ref(&self, left: &T, right: &T) -> (r: Ordering)
        ensures
            r == self.cmp_ref_spec(*left, *right),
    ;
}

impl<C: Collate> CollateRef<<C as Collate>::Value> for C {
    open spec fn cmp_ref_spec(&self, left: C::Value, right: C::Value) -> Ordering {
        self.cmp_spec(left, right)
    }

    fn compare_ref(&self, left: &C::Value, right: &C::Value) -> (r: Ordering) {
        self.compare(left, right)
    }
}

/// A generic collator for a type with an intrinsic total order.
///
/// It holds no configuration state, so any two `Collator<T>` are
/// interchangeable.
pub struct Collator<T> {
    phantom: PhantomData<T>,
}

impl<T> Default for Collator<T> {
    fn default() -> (r: Self) {
        Collator { phantom: PhantomData }
    }
}

impl<T> Clone for Collator<T> {
    fn clone(&self) -> (r: Self)
        ensures
            r == *self,
    {
        Collator { phantom: PhantomData }
    }
}

impl<T> Copy for Collator<T> {

}

impl<T> PartialEq for Collator<T> {
    fn eq(&self, other: &Self) -> (r: bool) {
        true
    }
}

impl<T> vstd::std_specs::cmp::PartialEqSpecImpl for Collator<T> {
    open spec fn obeys_eq_spec() -> bool {
        true
    }

    open spec fn eq_spec(&self, other: &Self) -> bool {
        true
    }
}

impl<T> Eq for Collator<T> {

}

impl Collate for Collator<u32> {
    type Value = u32;

    open spec fn cmp_spec(&self, left: u32, right: u32) -> Ordering {
        if left < right {
            Ordering::Less
        } else if left == right {
            Ordering::Equal
        } else {
            Ordering::Greater
        }
    }

    proof fn antisymmetry(&self, a: u32, b: u32) {
    }

    proof fn transitivity(&self, a: u32, b: u32, c: u32) {
    }

    fn compare(&self, left: &u32, right: &u32) -> (r: Ordering) {
        if *left < *right {
            Ordering::Less
        } else if *left == *right {
            Ordering::Equal
        } else {
            Ordering::Greater
        }
    }
}

impl Collate for Collator<u8> {
    type Value = u8;

    open spec fn cmp_spec(&self, left: u8, right: u8) -> Ordering {
        if left < right {
            Ordering::Less
        } else if left == right {
            Ordering::Equal
        } else {
            Ordering::Greater
        }
    }

    proof fn antisymmetry(&self, a: u8, b: u8) {
    }

    proof fn transitivity(&self, a: u8, b: u8, c: u8) {
    }

    fn compare(&self, left: &u8, right: &u8) -> (r: Ordering) {
        if *left < *right {
            Ordering::Less
        } else if *left == *right {
            Ordering::Equal
        } else {
            Ordering::Greater
        }
    }
}

impl Collate for Collator<u64> {
    type Value = u64;

    open spec fn cmp_spec(&self, left: u64, right: u64) -> Ordering {
        if left < right {
            Ordering::Less
        } else if left == right {
            Ordering::Equal
        } else {
            Ordering::Greater
        }
    }

    proof fn antisymmetry(&self, a: u64, b: u64) {
    }

    proof fn transitivity(&self, a: u64, b: u64, c: u64) {
    }

    fn compare(&self, left: &u64, right: &u64) -> (r: Ordering) {
        if *left < *right {
            Ordering::Less
        } else if *left == *right {
            Ordering::Equal
        } else {
            Ordering::Greater
        }
    }
}

impl Collate for Collator<usize> {
    type Value = usize;

    open spec fn cmp_spec(&self, left: usize, right: usize) -> Ordering {
        if left < right {
            Ordering::Less
        } else if left == right {
            Ordering::Equal
        } else {
            Ordering::Greater
        }
    }

    proof fn antisymmetry(&self, a: usize, b: usize) {
    }

    proof fn transitivity(&self, a: usize, b: usize, c: usize) {
    }

    fn compare(&self, left: &usize, right: &usize) -> (r: Ordering) {
        if *left < *right {
            Ordering::Less
        } else if *left == *right {
            Ordering::Equal
        } else {
            Ordering::Greater
        }
    }
}

impl Collate for Collator<i32> {
    type Value = i32;

    open spec fn cmp_spec(&self, left: i32, right: i32) -> Ordering {
        if left < right {
            Ordering::Less
        } else if left == right {
            Ordering::Equal
        } else {
            Ordering::Greater
        }
    }

    proof fn antisymmetry(&self, a: i32, b: i32) {
    }

    proof fn transitivity(&self, a: i32, b: i32, c: i32) {
    }

    fn compare(&self, left: &i32, right: &i32) -> (r: Ordering) {
        if *left < *right {
            Ordering::Less
        } else if *left == *right {
            Ordering::Equal
        } else {
            Ordering::Greater
        }
    }
}

impl Collate for Collator<i64> {
    type Value = i64;

    open spec fn cmp_spec(&self, left: i64, right: i64) -> Ordering {
        if left < right {
            Ordering::Less
        } else if left == right {
            Ordering::Equal
        } else {
            Ordering::Greater
        }
    }

    proof fn antisymmetry(&self, a: i64, b: i64) {
    }

    proof fn transitivity(&self, a: i64, b: i64, c: i64) {
    }

    fn compare(&self, left: &i64, right: &i64) -> (r: Ordering) {
        if *left < *right {
            Ordering::Less
        } else if *left == *right {
            Ordering::Equal
        } else {
            Ordering::Greater
        }
    }
}

} // verus!
