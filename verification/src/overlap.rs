//! Classification of how two one-dimensional ranges relate under a
//! [`Collate`] order, and composition of such classifications.

use vstd::prelude::*;

use core::cmp::Ordering;

use crate::{flip, Collate};

verus! {

/// An endpoint of a one-dimensional range over `V`: unconstrained,
/// inclusive, or exclusive.
#[derive(Debug)]
pub enum Bound<V> {
    Unbounded,
    Included(V),
    Excluded(V),
}

/// An [`Overlap`] is the result of a comparison between two ranges,
/// the equivalent of [`Ordering`] for hierarchical data.
#[derive(Clone, Copy, Debug, PartialEq, Eq, Structural)]
pub enum Overlap {
    /// A lack of overlap where the compared range is entirely less than another
    Less,
    /// A lack of overlap where the compared range is entirely greater than another
    Greater,
    /// An overlap where the compared range is identical to another
    Equal,
    /// An overlap where the compared range is a (non-equal) subset of another
    Narrow,
    /// An overlap where the compared range is a (non-equal) superset of another
    Wide,
    /// An overlap where the compared range is wider than another with a lesser
    /// start and end point
    WideLess,
    /// An overlap where the compared range is wider than another with a greater
    /// start and end point
    WideGreater,
}

/// The narrowest [`Overlap`] which contains both `a` and `b`: a join on the
/// lattice `{Less, WideLess} < {Narrow, Equal} < {WideGreater, Greater}`,
/// with `Wide` absorbing.
pub open spec fn overlap_then(a: Overlap, b: Overlap) -> Overlap {
    match a {
        Overlap::Wide => Overlap::Wide,
        Overlap::Narrow => match b {
            Overlap::Less | Overlap::WideLess => Overlap::WideLess,
            Overlap::Narrow | Overlap::Equal => a,
            Overlap::Wide => Overlap::Wide,
            Overlap::Greater | Overlap::WideGreater => Overlap::WideGreater,
        },
        Overlap::Equal => match b {
            Overlap::Less | Overlap::WideLess => Overlap::WideLess,
            Overlap::Equal | Overlap::Narrow | Overlap::Wide => b,
            Overlap::Greater | Overlap::WideGreater => Overlap::WideGreater,
        },
        Overlap::Less | Overlap::WideLess => match b {
            Overlap::Less => a,
            Overlap::WideLess | Overlap::Narrow | Overlap::Equal => Overlap::WideLess,
            Overlap::Wide | Overlap::WideGreater | Overlap::Greater => Overlap::Wide,
        },
        Overlap::Greater | Overlap::WideGreater => match b {
            Overlap::Greater => a,
            Overlap::WideGreater | Overlap::Narrow | Overlap::Equal => Overlap::WideGreater,
            Overlap::Wide | Overlap::WideLess | Overlap::Less => Overlap::Wide,
        },
    }
}

/// The classification of the reversed comparison: `Less` and `Greater` swap,
/// `Narrow` and `Wide` swap, `WideLess` and `WideGreater` swap, `Equal` stays.
pub open spec fn overlap_reverse(o: Overlap) -> Overlap {
    match o {
        Overlap::Less => Overlap::Greater,
        Overlap::Greater => Overlap::Less,
        Overlap::Equal => Overlap::Equal,
        Overlap::Narrow => Overlap::Wide,
        Overlap::Wide => Overlap::Narrow,
        Overlap::WideLess => Overlap::WideGreater,
        Overlap::WideGreater => Overlap::WideLess,
    }
}

impl Overlap {
    /// Return the narrowest [`Overlap`] which contains both `self` and `other`.
    pub fn then(self, other: Self) -> (r: Self)
        ensures
            r == overlap_then(self, other),
    {
        match self {
            Self::Wide => Self::Wide,
            Self::Narrow => match other {
                Self::Less | Self::WideLess => Self::WideLess,
                Self::Narrow | Self::Equal => self,
                Self::Wide => Self::Wide,
                Self::Greater | Self::WideGreater => Self::WideGreater,
            },
            Self::Equal => match other {
                Self::Less | Self::WideLess => Self::WideLess,
                Self::Equal | Self::Narrow | Self::Wide => other,
                Self::Greater | Self::WideGreater => Self::WideGreater,
            },
            Self::Less | Self::WideLess => match other {
                Self::Less => self,
                Self::WideLess | Self::Narrow | Self::Equal => Self::WideLess,
                Self::Wide | Self::WideGreater | Self::Greater => Self::Wide,
            },
            Self::Greater | Self::WideGreater => match other {
                Self::Greater => self,
                Self::WideGreater | Self::Narrow | Self::Equal => Self::WideGreater,
                Self::Wide | Self::WideLess | Self::Less => Self::Wide,
            },
        }
    }

    /// Return the classification of the reversed comparison.
    pub fn reverse(self) -> (r: Self)
        ensures
            r == overlap_reverse(self),
    {
        match self {
            Self::Less => Self::Greater,
            Self::Greater => Self::Less,
            Self::Equal => Self::Equal,
            Self::Narrow => Self::Wide,
            Self::Wide => Self::Narrow,
            Self::WideLess => Self::WideGreater,
            Self::WideGreater => Self::WideLess,
        }
    }
}

/// The [`Overlap`] corresponding to a plain [`Ordering`]: two ranges that
/// compare `Less`, `Equal` or `Greater` overall.
pub open spec fn overlap_from_ordering(order: Ordering) -> Overlap {
    match order {
        Ordering::Less => Overlap::Less,
        Ordering::Equal => Overlap::Equal,
        Ordering::Greater => Overlap::Greater,
    }
}

impl From<Ordering> for Overlap {
    fn from(order: Ordering) -> (r: Self)
        ensures
            r == overlap_from_ordering(order),
    {
        match order {
            Ordering::Less => Overlap::Less,
            Ordering::Equal => Overlap::Equal,
            Ordering::Greater => Overlap::Greater,
        }
    }
}

impl vstd::std_specs::convert::FromSpecImpl<Ordering> for Overlap {
    open spec fn obeys_from_spec() -> bool {
        true
    }

    open spec fn from_spec(order: Ordering) -> Overlap {
        overlap_from_ordering(order)
    }
}

/// The composition `then` is associative.
pub proof fn lemma_then_associative(a: Overlap, b: Overlap, c: Overlap)
    ensures
        overlap_then(overlap_then(a, b), c) == overlap_then(a, overlap_then(b, c)),
{
}

/// Comparison of two [`Bound`]s, with the tie-break rules used by
/// [`spec_overlaps`]: an `Unbounded` left bound compares as `r_ex` against
/// any bounded right bound and a bounded left bound compares as `l_ex`
/// against an `Unbounded` right bound, and a tie between an `Included` and
/// an `Excluded` bound at an equal value resolves to `l_ex` when the left
/// bound is the `Excluded` one, else to `r_ex`.
pub open spec fn spec_cmp_bound<C: Collate>(
    collator: C,
    left: Bound<<C as Collate>::Value>,
    right: Bound<<C as Collate>::Value>,
    l_ex: Ordering,
    r_ex: Ordering,
) -> Ordering {
    match (left, right) {
        (Bound::Unbounded, Bound::Unbounded) => Ordering::Equal,
        (_, Bound::Unbounded) => l_ex,
        (Bound::Unbounded, _) => r_ex,
        (Bound::Included(a), Bound::Included(b)) => collator.cmp_spec(a, b),
        (Bound::Excluded(a), Bound::Excluded(b)) => collator.cmp_spec(a, b),
        (Bound::Excluded(a), Bound::Included(b)) => if collator.cmp_spec(a, b)
            == Ordering::Equal {
            l_ex
        } else {
            collator.cmp_spec(a, b)
        },
        (Bound::Included(a), Bound::Excluded(b)) => if collator.cmp_spec(a, b)
            == Ordering::Equal {
            r_ex
        } else {
            collator.cmp_spec(a, b)
        },
    }
}

/// Compare two range endpoints under `collator`, resolving ties between
/// unbounded or exclusive endpoints with `l_ex` (in the left bound's favour)
/// and `r_ex` (in the right bound's favour).
pub fn cmp_bound<C: Collate>(
    collator: &C,
    left: &Bound<<C as Collate>::Value>,
    right: &Bound<<C as Collate>::Value>,
    l_ex: Ordering,
    r_ex: Ordering,
) -> (r: Ordering)
    ensures
        r == spec_cmp_bound(*collator, *left, *right, l_ex, r_ex),
{
    match (left, right) {
        (Bound::Unbounded, Bound::Unbounded) => Ordering::Equal,
        (_, Bound::Unbounded) => l_ex,
        (Bound::Unbounded, _) => r_ex,
        (Bound::Included(a), Bound::Included(b)) => collator.compare(a, b),
        (Bound::Excluded(a), Bound::Excluded(b)) => collator.compare(a, b),
        (Bound::Excluded(a), Bound::Included(b)) => match collator.compare(a, b) {
            Ordering::Equal => l_ex,
            o => o,
        },
        (Bound::Included(a), Bound::Excluded(b)) => match collator.compare(a, b) {
            Ordering::Equal => r_ex,
            o => o,
        },
    }
}

/// The classification of the range `(ls, le)` against the range `(rs, re)`.
pub open spec fn spec_overlaps<C: Collate>(
    collator: C,
    ls: Bound<<C as Collate>::Value>,
    le: Bound<<C as Collate>::Value>,
    rs: Bound<<C as Collate>::Value>,
    re: Bound<<C as Collate>::Value>,
) -> Overlap {
    let start = spec_cmp_bound(collator, ls, rs, Ordering::Greater, Ordering::Less);
    let end = spec_cmp_bound(collator, le, re, Ordering::Less, Ordering::Greater);
    match (start, end) {
        (Ordering::Equal, Ordering::Equal) => Overlap::Equal,
        (Ordering::Greater, Ordering::Less) => Overlap::Narrow,
        (Ordering::Greater, Ordering::Equal) => Overlap::Narrow,
        (Ordering::Equal, Ordering::Less) => Overlap::Narrow,
        (Ordering::Less, Ordering::Greater) => Overlap::Wide,
        (Ordering::Less, Ordering::Equal) => Overlap::Wide,
        (Ordering::Equal, Ordering::Greater) => Overlap::Wide,
        (Ordering::Less, Ordering::Less) => if spec_cmp_bound(
            collator,
            le,
            rs,
            Ordering::Less,
            Ordering::Less,
        ) == Ordering::Less {
            Overlap::Less
        } else {
            Overlap::WideLess
        },
        (Ordering::Greater, Ordering::Greater) => if spec_cmp_bound(
            collator,
            ls,
            re,
            Ordering::Greater,
            Ordering::Greater,
        ) == Ordering::Greater {
            Overlap::Greater
        } else {
            Overlap::WideGreater
        },
    }
}

/// Classify how the range `left` relates to the range `right` under the
/// given `collator`. Each range is a `(start, end)` pair of [`Bound`]s.
pub fn overlaps<C: Collate>(
    collator: &C,
    left: &(Bound<<C as Collate>::Value>, Bound<<C as Collate>::Value>),
    right: &(Bound<<C as Collate>::Value>, Bound<<C as Collate>::Value>),
) -> (r: Overlap)
    ensures
        r == spec_overlaps(*collator, left.0, left.1, right.0, right.1),
{
    let start = cmp_bound(collator, &left.0, &right.0, Ordering::Greater, Ordering::Less);
    let end = cmp_bound(collator, &left.1, &right.1, Ordering::Less, Ordering::Greater);
    match (start, end) {
        (Ordering::Equal, Ordering::Equal) => Overlap::Equal,
        (Ordering::Greater, Ordering::Less) => Overlap::Narrow,
        (Ordering::Greater, Ordering::Equal) => Overlap::Narrow,
        (Ordering::Equal, Ordering::Less) => Overlap::Narrow,
        (Ordering::Less, Ordering::Greater) => Overlap::Wide,
        (Ordering::Less, Ordering::Equal) => Overlap::Wide,
        (Ordering::Equal, Ordering::Greater) => Overlap::Wide,
        (Ordering::Less, Ordering::Less) => {
            match cmp_bound(collator, &left.1, &right.0, Ordering::Less, Ordering::Less) {
                Ordering::Less => Overlap::Less,
                _ => Overlap::WideLess,
            }
        },
        (Ordering::Greater, Ordering::Greater) => {
            match cmp_bound(collator, &left.0, &right.1, Ordering::Greater, Ordering::Greater) {
                Ordering::Greater => Overlap::Greater,
                _ => Overlap::WideGreater,
            }
        },
    }
}

/// The classification of the range `(start, end)` against the single value
/// `value`: only `Less`, `Greater`, `Equal`, `WideLess`, `WideGreater` and
/// `Wide` are possible (a range is never a strict subset of a point).
pub open spec fn spec_overlaps_value<C: Collate>(
    collator: C,
    start: Bound<<C as Collate>::Value>,
    end: Bound<<C as Collate>::Value>,
    value: <C as Collate>::Value,
) -> Overlap {
    let s = match start {
        Bound::Unbounded => Ordering::Less,
        Bound::Included(x) => collator.cmp_spec(x, value),
        Bound::Excluded(x) => if collator.cmp_spec(x, value) == Ordering::Less {
            Ordering::Less
        } else {
            Ordering::Greater
        },
    };
    let e = match end {
        Bound::Unbounded => Ordering::Greater,
        Bound::Included(x) => collator.cmp_spec(x, value),
        Bound::Excluded(x) => if collator.cmp_spec(x, value) == Ordering::Greater {
            Ordering::Greater
        } else {
            Ordering::Less
        },
    };
    match (s, e) {
        (_, Ordering::Less) => Overlap::Less,
        (Ordering::Greater, _) => Overlap::Greater,
        (Ordering::Equal, Ordering::Equal) => Overlap::Equal,
        (Ordering::Equal, Ordering::Greater) => Overlap::WideGreater,
        (Ordering::Less, Ordering::Greater) => Overlap::Wide,
        (Ordering::Less, Ordering::Equal) => Overlap::WideLess,
    }
}

/// Classify how the range `range` relates to the single value `value` under
/// the given `collator`.
pub fn overlaps_value<C: Collate>(
    range: &(Bound<<C as Collate>::Value>, Bound<<C as Collate>::Value>),
    value: &<C as Collate>::Value,
    collator: &C,
) -> (r: Overlap)
    ensures
        r == spec_overlaps_value(*collator, range.0, range.1, *value),
{
    let s = match &range.0 {
        Bound::Unbounded => Ordering::Less,
        Bound::Included(x) => collator.compare(x, value),
        Bound::Excluded(x) => match collator.compare(x, value) {
            Ordering::Less => Ordering::Less,
            _ => Ordering::Greater,
        },
    };
    let e = match &range.1 {
        Bound::Unbounded => Ordering::Greater,
        Bound::Included(x) => collator.compare(x, value),
        Bound::Excluded(x) => match collator.compare(x, value) {
            Ordering::Greater => Ordering::Greater,
            _ => Ordering::Less,
        },
    };
    match (s, e) {
        (_, Ordering::Less) => Overlap::Less,
        (Ordering::Greater, _) => Overlap::Greater,
        (Ordering::Equal, Ordering::Equal) => Overlap::Equal,
        (Ordering::Equal, Ordering::Greater) => Overlap::WideGreater,
        (Ordering::Less, Ordering::Greater) => Overlap::Wide,
        (Ordering::Less, Ordering::Equal) => Overlap::WideLess,
    }
}

/// True of the classifications under which one range contains another
/// entirely.
pub open spec fn overlap_contains(o: Overlap) -> bool {
    o == Overlap::Wide || o == Overlap::Equal
}

/// True of the classifications under which one range intersects another at
/// all.
pub open spec fn overlap_contains_partial(o: Overlap) -> bool {
    o != Overlap::Less && o != Overlap::Greater
}

/// Range-range comparison methods.
pub trait OverlapsRange<T, C: Collate> {
    /// The classification of `self` against `other`, as a mathematical
    /// function.
    spec fn overlap_spec(&self, other: &T, collator: &C) -> Overlap;

    /// Check how `self` overlaps `other` according to the given `collator`.
    fn overlaps(&self, other: &T, collator: &C) -> (r: Overlap)
        ensures
            r == self.overlap_spec(other, collator),
    ;

    /// Check whether `other` lies entirely within `self` according to the
    /// given `collator`.
    fn contains(&self, other: &T, collator: &C) -> (r: bool)
        ensures
            r == overlap_contains(self.overlap_spec(other, collator)),
    {
        match self.overlaps(other, collator) {
            Overlap::Wide | Overlap::Equal => true,
            _ => false,
        }
    }

    /// Check whether `other` lies at least partially within `self` according
    /// to the given `collator`.
    fn contains_partial(&self, other: &T, collator: &C) -> (r: bool)
        ensures
            r == overlap_contains_partial(self.overlap_spec(other, collator)),
    {
        match self.overlaps(other, collator) {
            Overlap::Narrow | Overlap::Equal => true,
            Overlap::WideLess | Overlap::Wide | Overlap::WideGreater => true,
            _ => false,
        }
    }
}

impl<C: Collate> OverlapsRange<
    (Bound<<C as Collate>::Value>, Bound<<C as Collate>::Value>),
    C,
> for (Bound<<C as Collate>::Value>, Bound<<C as Collate>::Value>) {
    open spec fn overlap_spec(
        &self,
        other: &(Bound<<C as Collate>::Value>, Bound<<C as Collate>::Value>),
        collator: &C,
    ) -> Overlap {
        spec_overlaps(*collator, self.0, self.1, other.0, other.1)
    }

    fn overlaps(
        &self,
        other: &(Bound<<C as Collate>::Value>, Bound<<C as Collate>::Value>),
        collator: &C,
    ) -> (r: Overlap) {
        overlaps(collator, self, other)
    }
}

/// Range-value comparison methods.
pub trait OverlapsValue<T, C: Collate> {
    /// The classification of `self` against `value`, as a mathematical
    /// function.
    spec fn overlap_value_spec(&self, value: &T, collator: &C) -> Overlap;

    /// Check how `self` overlaps `value` according to the given `collator`.
    fn overlaps_value(&self, value: &T, collator: &C) -> (r: Overlap)
        ensures
            r == self.overlap_value_spec(value, collator),
    ;

    /// Return `true` if this range contains `value` according to `collator`.
    fn contains_value(&self, value: &T, collator: &C) -> (r: bool)
        ensures
            r == overlap_contains_partial(self.overlap_value_spec(value, collator)),
    {
        match self.overlaps_value(value, collator) {
            Overlap::Less | Overlap::Greater => false,
            _ => true,
        }
    }
}

impl<C: Collate> OverlapsValue<<C as Collate>::Value, C> for (
    Bound<<C as Collate>::Value>,
    Bound<<C as Collate>::Value>,
) {
    open spec fn overlap_value_spec(
        &self,
        value: &<C as Collate>::Value,
        collator: &C,
    ) -> Overlap {
        spec_overlaps_value(*collator, self.0, self.1, *value)
    }

    fn overlaps_value(&self, value: &<C as Collate>::Value, collator: &C) -> (r: Overlap) {
        overlaps_value(self, value, collator)
    }
}

/// Containment is a special case of partial containment: a range that
/// contains another entirely also contains it partially.
pub proof fn lemma_contains_implies_contains_partial(o: Overlap)
    ensures
        overlap_contains(o) ==> overlap_contains_partial(o),
{
}

/// Against a single value, only six classifications can arise: a range is
/// never a strict subset of a point, so `Narrow` is impossible.
pub proof fn lemma_overlaps_value_never_narrow<C: Collate>(
    collator: C,
    start: Bound<<C as Collate>::Value>,
    end: Bound<<C as Collate>::Value>,
    value: <C as Collate>::Value,
)
    ensures
        spec_overlaps_value(collator, start, end, value) != Overlap::Narrow,
{
}

/// Swapping the arguments of [`spec_cmp_bound`] flips the result, provided
/// the tie-break arguments are swapped and flipped alongside.
proof fn lemma_cmp_bound_flip<C: Collate>(
    collator: C,
    x: Bound<<C as Collate>::Value>,
    y: Bound<<C as Collate>::Value>,
    l_ex: Ordering,
    r_ex: Ordering,
)
    ensures
        spec_cmp_bound(collator, x, y, l_ex, r_ex) == flip(
            spec_cmp_bound(collator, y, x, flip(r_ex), flip(l_ex)),
        ),
{
    match (x, y) {
        (Bound::Included(a), Bound::Included(b)) => collator.antisymmetry(a, b),
        (Bound::Included(a), Bound::Excluded(b)) => collator.antisymmetry(a, b),
        (Bound::Excluded(a), Bound::Included(b)) => collator.antisymmetry(a, b),
        (Bound::Excluded(a), Bound::Excluded(b)) => collator.antisymmetry(a, b),
        _ => (),
    }
}

/// Classifying `left` against `right` and classifying `right` against
/// `left` give reversed results, for every pair of ranges.
pub proof fn lemma_overlaps_reverse<C: Collate>(
    collator: C,
    ls: Bound<<C as Collate>::Value>,
    le: Bound<<C as Collate>::Value>,
    rs: Bound<<C as Collate>::Value>,
    re: Bound<<C as Collate>::Value>,
)
    ensures
        overlap_reverse(spec_overlaps(collator, ls, le, rs, re)) == spec_overlaps(
            collator,
            rs,
            re,
            ls,
            le,
        ),
{
    lemma_cmp_bound_flip(collator, ls, rs, Ordering::Greater, Ordering::Less);
    lemma_cmp_bound_flip(collator, le, re, Ordering::Less, Ordering::Greater);
    lemma_cmp_bound_flip(collator, le, rs, Ordering::Less, Ordering::Less);
    lemma_cmp_bound_flip(collator, ls, re, Ordering::Greater, Ordering::Greater);
}

} // verus!




