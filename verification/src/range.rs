//! A range over a composite key: an exact-match prefix plus one bounded
//! dimension, for use with the [`Collate`] trait.

use vstd::prelude::*;

use core::cmp::Ordering;

use crate::overlap::Bound;
use crate::Collate;

verus! {

/// A range for use with the [`Collate`] trait: an exact-match `prefix` of
/// leading key components, then a single `(start, end)`-bounded component,
/// unconstrained beyond that.
#[derive(Debug)]
pub struct Range<V> {
    prefix: Vec<V>,
    start: Bound<V>,
    end: Bound<V>,
}

/// Whether every component of `outer` collates `Equal` to the corresponding
/// leading component of `inner`.
pub open spec fn spec_prefix_matches<C: Collate>(
    collator: C,
    outer: Seq<<C as Collate>::Value>,
    inner: Seq<<C as Collate>::Value>,
) -> bool {
    forall|i: int|
        0 <= i < outer.len() ==> #[trigger] collator.cmp_spec(inner[i], outer[i])
            == Ordering::Equal
}

/// Whether `value` does not precede the start bound `start` under `collator`.
pub open spec fn spec_on_or_after_start<C: Collate>(
    collator: C,
    start: Bound<<C as Collate>::Value>,
    value: <C as Collate>::Value,
) -> bool {
    match start {
        Bound::Unbounded => true,
        Bound::Included(outer) => collator.cmp_spec(value, outer) != Ordering::Less,
        Bound::Excluded(outer) => collator.cmp_spec(value, outer) == Ordering::Greater,
    }
}

/// Whether `value` does not follow the end bound `end` under `collator`.
pub open spec fn spec_on_or_before_end<C: Collate>(
    collator: C,
    end: Bound<<C as Collate>::Value>,
    value: <C as Collate>::Value,
) -> bool {
    match end {
        Bound::Unbounded => true,
        Bound::Included(outer) => collator.cmp_spec(value, outer) != Ordering::Greater,
        Bound::Excluded(outer) => collator.cmp_spec(value, outer) == Ordering::Less,
    }
}

/// Whether the start bound `inner` begins at or after the start bound
/// `outer` under `collator`.
pub open spec fn spec_start_within<C: Collate>(
    collator: C,
    outer: Bound<<C as Collate>::Value>,
    inner: Bound<<C as Collate>::Value>,
) -> bool {
    match outer {
        Bound::Unbounded => true,
        Bound::Included(o) => match inner {
            Bound::Unbounded => false,
            Bound::Included(i) => collator.cmp_spec(i, o) != Ordering::Less,
            Bound::Excluded(i) => collator.cmp_spec(i, o) == Ordering::Greater,
        },
        Bound::Excluded(o) => match inner {
            Bound::Unbounded => false,
            Bound::Included(i) => collator.cmp_spec(i, o) == Ordering::Greater,
            Bound::Excluded(i) => collator.cmp_spec(i, o) != Ordering::Less,
        },
    }
}

/// Whether the end bound `inner` ends at or before the end bound `outer`
/// under `collator`.
pub open spec fn spec_end_within<C: Collate>(
    collator: C,
    outer: Bound<<C as Collate>::Value>,
    inner: Bound<<C as Collate>::Value>,
) -> bool {
    match outer {
        Bound::Unbounded => true,
        Bound::Included(o) => match inner {
            Bound::Unbounded => false,
            Bound::Included(i) => collator.cmp_spec(i, o) != Ordering::Greater,
            Bound::Excluded(i) => collator.cmp_spec(i, o) == Ordering::Less,
        },
        Bound::Excluded(o) => match inner {
            Bound::Unbounded => false,
            Bound::Included(i) => collator.cmp_spec(i, o) == Ordering::Less,
            Bound::Excluded(i) => collator.cmp_spec(i, o) != Ordering::Greater,
        },
    }
}

/// Whether the [`Range`] with components `(outer_prefix, outer_start,
/// outer_end)` contains the one with components `(inner_prefix, inner_start,
/// inner_end)`: the outer prefix must be a collation-equal prefix of the
/// inner one; with equal prefix lengths the inner start bound must begin at
/// or after the outer one and the inner end bound must end at or before it,
/// and with a longer inner prefix its first extra component must lie between
/// the outer bounds.
pub open spec fn spec_range_contains<C: Collate>(
    collator: C,
    outer_prefix: Seq<<C as Collate>::Value>,
    outer_start: Bound<<C as Collate>::Value>,
    outer_end: Bound<<C as Collate>::Value>,
    inner_prefix: Seq<<C as Collate>::Value>,
    inner_start: Bound<<C as Collate>::Value>,
    inner_end: Bound<<C as Collate>::Value>,
) -> bool {
    &&& inner_prefix.len() >= outer_prefix.len()
    &&& spec_prefix_matches(collator, outer_prefix, inner_prefix)
    &&& if inner_prefix.len() == outer_prefix.len() {
        spec_start_within(collator, outer_start, inner_start) && spec_end_within(
            collator,
            outer_end,
            inner_end,
        )
    } else {
        let value = inner_prefix[outer_prefix.len() as int];
        spec_on_or_after_start(collator, outer_start, value) && spec_on_or_before_end(
            collator,
            outer_end,
            value,
        )
    }
}

impl<V> Range<V> {
    /// The prefix of this range, as a sequence of key components.
    pub closed spec fn spec_prefix(self) -> Seq<V> {
        self.prefix@
    }

    /// The starting bound of the component after the prefix.
    pub closed spec fn spec_start(self) -> Bound<V> {
        self.start
    }

    /// The ending bound of the component after the prefix.
    pub closed spec fn spec_end(self) -> Bound<V> {
        self.end
    }

    /// Whether this range constrains the component after the prefix at all.
    pub open spec fn spec_has_bounds(self) -> bool {
        !(self.spec_start() is Unbounded && self.spec_end() is Unbounded)
    }

    /// The number of key components this range constrains.
    pub open spec fn spec_len(self) -> nat {
        if self.spec_has_bounds() {
            self.spec_prefix().len() + 1
        } else {
            self.spec_prefix().len()
        }
    }

    /// Returns `false` if both the start and end bounds of this `Range` are
    /// `Unbounded`.
    pub fn has_bounds(&self) -> (r: bool)
        ensures
            r == self.spec_has_bounds(),
    {
        match (&self.start, &self.end) {
            (Bound::Unbounded, Bound::Unbounded) => false,
            _ => true,
        }
    }

    /// Construct a new [`Range`] with the given `prefix` and the half-open
    /// bounds of `range` on the following component.
    pub fn new(prefix: Vec<V>, range: core::ops::Range<V>) -> (r: Self)
        ensures
            r.spec_prefix() == prefix@,
            r.spec_start() == Bound::Included(range.start),
            r.spec_end() == Bound::Excluded(range.end),
    {
        let core::ops::Range { start, end } = range;
        Range { prefix, start: Bound::Included(start), end: Bound::Excluded(end) }
    }

    /// Construct a new [`Range`] with only the given `prefix`.
    pub fn with_prefix(prefix: Vec<V>) -> (r: Self)
        ensures
            r.spec_prefix() == prefix@,
            r.spec_start() == Bound::<V>::Unbounded,
            r.spec_end() == Bound::<V>::Unbounded,
    {
        Range { prefix, start: Bound::Unbounded, end: Bound::Unbounded }
    }

    /// Deconstruct this [`Range`] into its prefix and its start and end
    /// [`Bound`]s.
    pub fn into_inner(self) -> (r: (Vec<V>, Bound<V>, Bound<V>))
        ensures
            r.0@ == self.spec_prefix(),
            r.1 == self.spec_start(),
            r.2 == self.spec_end(),
    {
        let Range { prefix, start, end } = self;
        (prefix, start, end)
    }

    /// Return the length of this [`Range`]: the prefix length, plus one if
    /// the component after the prefix is constrained.
    pub fn len(&self) -> (r: usize)
        requires
            self.spec_prefix().len() < usize::MAX,
        ensures
            r == self.spec_len(),
    {
        let len = self.prefix.len();
        match (&self.start, &self.end) {
            (Bound::Unbounded, Bound::Unbounded) => len,
            _ => len + 1,
        }
    }

    /// Borrow the prefix of this [`Range`].
    pub fn prefix(&self) -> (r: &Vec<V>)
        ensures
            r@ == self.spec_prefix(),
    {
        &self.prefix
    }

    /// Borrow the starting [`Bound`] of the component after the prefix.
    pub fn start(&self) -> (r: &Bound<V>)
        ensures
            *r == self.spec_start(),
    {
        &self.start
    }

    /// Borrow the ending [`Bound`] of the component after the prefix.
    pub fn end(&self) -> (r: &Bound<V>)
        ensures
            *r == self.spec_end(),
    {
        &self.end
    }
}

impl<V> Default for Range<V> {
    /// The range that constrains nothing: an empty prefix with unbounded
    /// endpoints.
    fn default() -> (r: Self)
        ensures
            r.spec_prefix() == Seq::<V>::empty(),
            r.spec_start() == Bound::<V>::Unbounded,
            r.spec_end() == Bound::<V>::Unbounded,
    {
        let r = Range { prefix: Vec::new(), start: Bound::Unbounded, end: Bound::Unbounded };
        proof {
            assert(r.spec_prefix() =~= Seq::<V>::empty());
        }
        r
    }
}

impl<V> From<(Vec<V>, core::ops::Range<V>)> for Range<V> {
    /// The [`Range`] with the given prefix and the half-open bounds of the
    /// tuple's second component on the following dimension.
    fn from(tuple: (Vec<V>, core::ops::Range<V>)) -> (r: Self)
        ensures
            r.spec_prefix() == tuple.0@,
            r.spec_start() == Bound::Included(tuple.1.start),
            r.spec_end() == Bound::Excluded(tuple.1.end),
    {
        let (prefix, suffix) = tuple;
        let core::ops::Range { start, end } = suffix;
        Range { prefix, start: Bound::Included(start), end: Bound::Excluded(end) }
    }
}

impl<V> vstd::std_specs::convert::FromSpecImpl<(Vec<V>, core::ops::Range<V>)> for Range<V> {
    open spec fn obeys_from_spec() -> bool {
        true
    }

    closed spec fn from_spec(tuple: (Vec<V>, core::ops::Range<V>)) -> Range<V> {
        Range {
            prefix: tuple.0,
            start: Bound::Included(tuple.1.start),
            end: Bound::Excluded(tuple.1.end),
        }
    }
}

impl<V> From<(Vec<V>, Bound<V>, Bound<V>)> for Range<V> {
    /// The [`Range`] with the given prefix and the given bounds on the
    /// following dimension.
    fn from(tuple: (Vec<V>, Bound<V>, Bound<V>)) -> (r: Self)
        ensures
            r.spec_prefix() == tuple.0@,
            r.spec_start() == tuple.1,
            r.spec_end() == tuple.2,
    {
        let (prefix, start, end) = tuple;
        Range { prefix, start, end }
    }
}

impl<V> vstd::std_specs::convert::FromSpecImpl<(Vec<V>, Bound<V>, Bound<V>)> for Range<V> {
    open spec fn obeys_from_spec() -> bool {
        true
    }

    closed spec fn from_spec(tuple: (Vec<V>, Bound<V>, Bound<V>)) -> Range<V> {
        Range { prefix: tuple.0, start: tuple.1, end: tuple.2 }
    }
}

impl<V> Range<V> {
    /// Return `true` if the `other` [`Range`] lies entirely within this one,
    /// comparing key components with `collator`.
    pub fn contains<C: Collate<Value = V>>(&self, other: &Self, collator: &C) -> (r: bool)
        ensures
            r == spec_range_contains(
                *collator,
                self.spec_prefix(),
                self.spec_start(),
                self.spec_end(),
                other.spec_prefix(),
                other.spec_start(),
                other.spec_end(),
            ),
    {
        if other.prefix.len() < self.prefix.len() {
            return false;
        }
        let mut i: usize = 0;
        while i < self.prefix.len()
            invariant
                0 <= i <= self.prefix@.len() <= other.prefix@.len(),
                forall|j: int|
                    0 <= j < i ==> #[trigger] collator.cmp_spec(other.prefix@[j], self.prefix@[j])
                        == Ordering::Equal,
            decreases self.prefix@.len() - i,
        {
            match collator.compare(&other.prefix[i], &self.prefix[i]) {
                Ordering::Equal => (),
                _ => {
                    return false;
                },
            }
            i = i + 1;
        }
        if other.prefix.len() == self.prefix.len() {
            match &self.start {
                Bound::Unbounded => (),
                Bound::Included(outer) => match &other.start {
                    Bound::Unbounded => {
                        return false;
                    },
                    Bound::Included(inner) => {
                        if let Ordering::Less = collator.compare(inner, outer) {
                            return false;
                        }
                    },
                    Bound::Excluded(inner) => {
                        match collator.compare(inner, outer) {
                            Ordering::Greater => (),
                            _ => {
                                return false;
                            },
                        }
                    },
                },
                Bound::Excluded(outer) => match &other.start {
                    Bound::Unbounded => {
                        return false;
                    },
                    Bound::Included(inner) => {
                        match collator.compare(inner, outer) {
                            Ordering::Greater => (),
                            _ => {
                                return false;
                            },
                        }
                    },
                    Bound::Excluded(inner) => {
                        if let Ordering::Less = collator.compare(inner, outer) {
                            return false;
                        }
                    },
                },
            }
            match &self.end {
                Bound::Unbounded => (),
                Bound::Included(outer) => match &other.end {
                    Bound::Unbounded => {
                        return false;
                    },
                    Bound::Included(inner) => {
                        if let Ordering::Greater = collator.compare(inner, outer) {
                            return false;
                        }
                    },
                    Bound::Excluded(inner) => {
                        match collator.compare(inner, outer) {
                            Ordering::Less => (),
                            _ => {
                                return false;
                            },
                        }
                    },
                },
                Bound::Excluded(outer) => match &other.end {
                    Bound::Unbounded => {
                        return false;
                    },
                    Bound::Included(inner) => {
                        match collator.compare(inner, outer) {
                            Ordering::Less => (),
                            _ => {
                                return false;
                            },
                        }
                    },
                    Bound::Excluded(inner) => {
                        if let Ordering::Greater = collator.compare(inner, outer) {
                            return false;
                        }
                    },
                },
            }
        } else {
            let value = &other.prefix[self.prefix.len()];
            match &self.start {
                Bound::Unbounded => (),
                Bound::Included(outer) => {
                    if let Ordering::Less = collator.compare(value, outer) {
                        return false;
                    }
                },
                Bound::Excluded(outer) => {
                    match collator.compare(value, outer) {
                        Ordering::Greater => (),
                        _ => {
                            return false;
                        },
                    }
                },
            }
            match &self.end {
                Bound::Unbounded => (),
                Bound::Included(outer) => {
                    if let Ordering::Greater = collator.compare(value, outer) {
                        return false;
                    }
                },
                Bound::Excluded(outer) => {
                    match collator.compare(value, outer) {
                        Ordering::Less => (),
                        _ => {
                            return false;
                        },
                    }
                },
            }
        }
        true
    }
}


/// A value at or after an inner start bound is at or after any outer start
/// bound the inner one lies within; values equal under the collator clear
/// the same start bounds.
proof fn lemma_start_within_value<C: Collate>(
    collator: C,
    outer: Bound<<C as Collate>::Value>,
    inner: Bound<<C as Collate>::Value>,
    v: <C as Collate>::Value,
)
    requires
        spec_start_within(collator, outer, inner),
        spec_on_or_after_start(collator, inner, v),
    ensures
        spec_on_or_after_start(collator, outer, v),
{
    match (outer, inner) {
        (Bound::Included(o), Bound::Included(i)) => {
            collator.antisymmetry(i, o);
            collator.antisymmetry(v, i);
            collator.transitivity(o, i, v);
            collator.antisymmetry(v, o);
        },
        (Bound::Included(o), Bound::Excluded(i)) => {
            collator.antisymmetry(i, o);
            collator.antisymmetry(v, i);
            crate::lemma_less_le_less(collator, o, i, v);
            collator.antisymmetry(v, o);
        },
        (Bound::Excluded(o), Bound::Included(i)) => {
            collator.antisymmetry(i, o);
            collator.antisymmetry(v, i);
            crate::lemma_less_le_less(collator, o, i, v);
            collator.antisymmetry(v, o);
        },
        (Bound::Excluded(o), Bound::Excluded(i)) => {
            collator.antisymmetry(i, o);
            collator.antisymmetry(v, i);
            crate::lemma_le_less_less(collator, o, i, v);
            collator.antisymmetry(v, o);
        },
        _ => (),
    }
}

/// A value at or before an inner end bound is at or before any outer end
/// bound the inner one lies within.
proof fn lemma_end_within_value<C: Collate>(
    collator: C,
    outer: Bound<<C as Collate>::Value>,
    inner: Bound<<C as Collate>::Value>,
    v: <C as Collate>::Value,
)
    requires
        spec_end_within(collator, outer, inner),
        spec_on_or_before_end(collator, inner, v),
    ensures
        spec_on_or_before_end(collator, outer, v),
{
    match (outer, inner) {
        (Bound::Included(o), Bound::Included(i)) => {
            collator.transitivity(v, i, o);
        },
        (Bound::Included(o), Bound::Excluded(i)) => {
            crate::lemma_less_le_less(collator, v, i, o);
        },
        (Bound::Excluded(o), Bound::Included(i)) => {
            crate::lemma_le_less_less(collator, v, i, o);
        },
        (Bound::Excluded(o), Bound::Excluded(i)) => {
            crate::lemma_less_le_less(collator, v, i, o);
        },
        _ => (),
    }
}

/// A value clearing a start bound is interchangeable with any value it
/// compares `Equal` to.
proof fn lemma_start_value_equiv<C: Collate>(
    collator: C,
    start: Bound<<C as Collate>::Value>,
    v: <C as Collate>::Value,
    w: <C as Collate>::Value,
)
    requires
        spec_on_or_after_start(collator, start, v),
        collator.cmp_spec(w, v) == Ordering::Equal,
    ensures
        spec_on_or_after_start(collator, start, w),
{
    match start {
        Bound::Included(o) => {
            collator.antisymmetry(w, v);
            collator.antisymmetry(v, o);
            collator.transitivity(o, v, w);
            collator.antisymmetry(w, o);
        },
        Bound::Excluded(o) => {
            collator.antisymmetry(w, v);
            collator.antisymmetry(v, o);
            crate::lemma_less_le_less(collator, o, v, w);
            collator.antisymmetry(w, o);
        },
        Bound::Unbounded => (),
    }
}

/// A value clearing an end bound is interchangeable with any value it
/// compares `Equal` to.
proof fn lemma_end_value_equiv<C: Collate>(
    collator: C,
    end: Bound<<C as Collate>::Value>,
    v: <C as Collate>::Value,
    w: <C as Collate>::Value,
)
    requires
        spec_on_or_before_end(collator, end, v),
        collator.cmp_spec(w, v) == Ordering::Equal,
    ensures
        spec_on_or_before_end(collator, end, w),
{
    match end {
        Bound::Included(o) => {
            collator.transitivity(w, v, o);
        },
        Bound::Excluded(o) => {
            crate::lemma_le_less_less(collator, w, v, o);
        },
        Bound::Unbounded => (),
    }
}

/// [`spec_start_within`] is transitive.
proof fn lemma_start_within_trans<C: Collate>(
    collator: C,
    outer: Bound<<C as Collate>::Value>,
    mid: Bound<<C as Collate>::Value>,
    inner: Bound<<C as Collate>::Value>,
)
    requires
        spec_start_within(collator, outer, mid),
        spec_start_within(collator, mid, inner),
    ensures
        spec_start_within(collator, outer, inner),
{
    match (outer, mid, inner) {
        (Bound::Unbounded, _, _) => (),
        (Bound::Included(o), Bound::Included(m), Bound::Included(i)) => {
            collator.antisymmetry(m, o);
            collator.antisymmetry(i, m);
            collator.transitivity(o, m, i);
            collator.antisymmetry(i, o);
        },
        (Bound::Included(o), Bound::Included(m), Bound::Excluded(i)) => {
            collator.antisymmetry(m, o);
            collator.antisymmetry(i, m);
            crate::lemma_le_less_less(collator, o, m, i);
            collator.antisymmetry(i, o);
        },
        (Bound::Included(o), Bound::Excluded(m), Bound::Included(i)) => {
            collator.antisymmetry(m, o);
            collator.antisymmetry(i, m);
            crate::lemma_less_le_less(collator, o, m, i);
            collator.antisymmetry(i, o);
        },
        (Bound::Included(o), Bound::Excluded(m), Bound::Excluded(i)) => {
            collator.antisymmetry(m, o);
            collator.antisymmetry(i, m);
            crate::lemma_less_le_less(collator, o, m, i);
            collator.antisymmetry(i, o);
        },
        (Bound::Excluded(o), Bound::Included(m), Bound::Included(i)) => {
            collator.antisymmetry(m, o);
            collator.antisymmetry(i, m);
            crate::lemma_less_le_less(collator, o, m, i);
            collator.antisymmetry(i, o);
        },
        (Bound::Excluded(o), Bound::Included(m), Bound::Excluded(i)) => {
            collator.antisymmetry(m, o);
            collator.antisymmetry(i, m);
            crate::lemma_less_le_less(collator, o, m, i);
            collator.antisymmetry(i, o);
        },
        (Bound::Excluded(o), Bound::Excluded(m), Bound::Included(i)) => {
            collator.antisymmetry(m, o);
            collator.antisymmetry(i, m);
            crate::lemma_le_less_less(collator, o, m, i);
            collator.antisymmetry(i, o);
        },
        (Bound::Excluded(o), Bound::Excluded(m), Bound::Excluded(i)) => {
            collator.antisymmetry(m, o);
            collator.antisymmetry(i, m);
            collator.transitivity(o, m, i);
            collator.antisymmetry(i, o);
        },
        _ => (),
    }
}

/// [`spec_end_within`] is transitive.
proof fn lemma_end_within_trans<C: Collate>(
    collator: C,
    outer: Bound<<C as Collate>::Value>,
    mid: Bound<<C as Collate>::Value>,
    inner: Bound<<C as Collate>::Value>,
)
    requires
        spec_end_within(collator, outer, mid),
        spec_end_within(collator, mid, inner),
    ensures
        spec_end_within(collator, outer, inner),
{
    match (outer, mid, inner) {
        (Bound::Unbounded, _, _) => (),
        (Bound::Included(o), Bound::Included(m), Bound::Included(i)) => {
            collator.transitivity(i, m, o);
        },
        (Bound::Included(o), Bound::Included(m), Bound::Excluded(i)) => {
            crate::lemma_less_le_less(collator, i, m, o);
        },
        (Bound::Included(o), Bound::Excluded(m), Bound::Included(i)) => {
            crate::lemma_less_le_less(collator, i, m, o);
        },
        (Bound::Included(o), Bound::Excluded(m), Bound::Excluded(i)) => {
            crate::lemma_le_less_less(collator, i, m, o);
        },
        (Bound::Excluded(o), Bound::Included(m), Bound::Included(i)) => {
            crate::lemma_le_less_less(collator, i, m, o);
        },
        (Bound::Excluded(o), Bound::Included(m), Bound::Excluded(i)) => {
            crate::lemma_less_le_less(collator, i, m, o);
        },
        (Bound::Excluded(o), Bound::Excluded(m), Bound::Included(i)) => {
            crate::lemma_less_le_less(collator, i, m, o);
        },
        (Bound::Excluded(o), Bound::Excluded(m), Bound::Excluded(i)) => {
            collator.transitivity(i, m, o);
        },
        _ => (),
    }
}

/// Containment of composite ranges is reflexive: every range contains
/// itself.
pub proof fn lemma_range_contains_reflexive<C: Collate>(
    collator: C,
    prefix: Seq<<C as Collate>::Value>,
    start: Bound<<C as Collate>::Value>,
    end: Bound<<C as Collate>::Value>,
)
    ensures
        spec_range_contains(collator, prefix, start, end, prefix, start, end),
{
    assert forall|i: int| 0 <= i < prefix.len() implies #[trigger] collator.cmp_spec(
        prefix[i],
        prefix[i],
    ) == Ordering::Equal by {
        collator.antisymmetry(prefix[i], prefix[i]);
    }
    match start {
        Bound::Included(o) => collator.antisymmetry(o, o),
        Bound::Excluded(o) => collator.antisymmetry(o, o),
        Bound::Unbounded => (),
    }
    match end {
        Bound::Included(o) => collator.antisymmetry(o, o),
        Bound::Excluded(o) => collator.antisymmetry(o, o),
        Bound::Unbounded => (),
    }
}

/// Containment of composite ranges is transitive: a range containing a
/// second, which contains a third, contains the third.
pub proof fn lemma_range_contains_transitive<C: Collate>(
    collator: C,
    a_prefix: Seq<<C as Collate>::Value>,
    a_start: Bound<<C as Collate>::Value>,
    a_end: Bound<<C as Collate>::Value>,
    b_prefix: Seq<<C as Collate>::Value>,
    b_start: Bound<<C as Collate>::Value>,
    b_end: Bound<<C as Collate>::Value>,
    d_prefix: Seq<<C as Collate>::Value>,
    d_start: Bound<<C as Collate>::Value>,
    d_end: Bound<<C as Collate>::Value>,
)
    requires
        spec_range_contains(collator, a_prefix, a_start, a_end, b_prefix, b_start, b_end),
        spec_range_contains(collator, b_prefix, b_start, b_end, d_prefix, d_start, d_end),
    ensures
        spec_range_contains(collator, a_prefix, a_start, a_end, d_prefix, d_start, d_end),
{
    assert forall|i: int| 0 <= i < a_prefix.len() implies #[trigger] collator.cmp_spec(
        d_prefix[i],
        a_prefix[i],
    ) == Ordering::Equal by {
        assert(collator.cmp_spec(b_prefix[i], a_prefix[i]) == Ordering::Equal);
        assert(collator.cmp_spec(d_prefix[i], b_prefix[i]) == Ordering::Equal);
        crate::lemma_eq_trans(collator, d_prefix[i], b_prefix[i], a_prefix[i]);
    }
    if d_prefix.len() == a_prefix.len() {
        lemma_start_within_trans(collator, a_start, b_start, d_start);
        lemma_end_within_trans(collator, a_end, b_end, d_end);
    } else if b_prefix.len() == a_prefix.len() {
        let value = d_prefix[a_prefix.len() as int];
        lemma_start_within_value(collator, a_start, b_start, value);
        lemma_end_within_value(collator, a_end, b_end, value);
    } else {
        let u = b_prefix[a_prefix.len() as int];
        let value = d_prefix[a_prefix.len() as int];
        assert(collator.cmp_spec(value, u) == Ordering::Equal);
        lemma_start_value_equiv(collator, a_start, u, value);
        lemma_end_value_equiv(collator, a_end, u, value);
    }
}

} // verus!
