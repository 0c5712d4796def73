use collate::overlap::{cmp_bound, overlaps, overlaps_value, OverlapsRange, OverlapsValue};
use collate::{Bound, Collate, CollateRef, Collator, Overlap};

use std::cmp::Ordering;

fn bounds(start: u32, end: u32) -> (Bound<u32>, Bound<u32>) {
    (Bound::Included(start), Bound::Excluded(end))
}

#[test]
fn test_collator_compare() {
    let collator = Collator::<u32>::default();
    assert_eq!(collator.compare(&1, &2), Ordering::Less);
    assert_eq!(collator.compare(&2, &2), Ordering::Equal);
    assert_eq!(collator.compare(&3, &2), Ordering::Greater);
}

#[test]
fn test_collators_are_interchangeable() {
    // the natural-order collator holds no configuration state, so any two
    // of the same type are equal
    assert!(Collator::<u32>::default() == Collator::<u32>::default());
}

#[test]
fn test_collator_compare_ref() {
    let collator = Collator::<u32>::default();
    assert_eq!(collator.compare_ref(&1, &2), Ordering::Less);
    assert_eq!(collator.compare_ref(&2, &1), Ordering::Greater);
}

#[test]
fn test_cmp_bound_unbounded() {
    let collator = Collator::<u32>::default();
    assert_eq!(
        cmp_bound(
            &collator,
            &Bound::Unbounded,
            &Bound::Unbounded,
            Ordering::Greater,
            Ordering::Less
        ),
        Ordering::Equal
    );
    // an unbounded start sorts before any bounded start
    assert_eq!(
        cmp_bound(
            &collator,
            &Bound::Unbounded,
            &Bound::Included(0),
            Ordering::Greater,
            Ordering::Less
        ),
        Ordering::Less
    );
    // an included bound against an excluded bound at the same value resolves
    // by the tie-break for the right side
    assert_eq!(
        cmp_bound(
            &collator,
            &Bound::Included(3),
            &Bound::Excluded(3),
            Ordering::Greater,
            Ordering::Less
        ),
        Ordering::Less
    );
}

#[test]
fn test_overlap_scenarios() {
    let collator = Collator::<u32>::default();
    assert_eq!(bounds(0, 1).overlaps(&bounds(2, 5), &collator), Overlap::Less);
    assert_eq!(bounds(3, 5).overlaps(&bounds(1, 7), &collator), Overlap::Narrow);
    assert_eq!(bounds(1, 7).overlaps(&bounds(3, 5), &collator), Overlap::Wide);
    assert_eq!(bounds(1, 4).overlaps(&bounds(3, 5), &collator), Overlap::WideLess);
    assert_eq!(bounds(3, 5).overlaps(&bounds(1, 4), &collator), Overlap::WideGreater);
    assert_eq!(bounds(0, 1).overlaps(&bounds(0, 1), &collator), Overlap::Equal);
    assert_eq!(bounds(4, 5).overlaps(&bounds(1, 4), &collator), Overlap::Greater);
    // containment with one shared endpoint is still containment
    assert_eq!(bounds(1, 5).overlaps(&bounds(3, 5), &collator), Overlap::Wide);
    assert_eq!(bounds(3, 5).overlaps(&bounds(1, 5), &collator), Overlap::Narrow);
    assert_eq!(bounds(1, 5).overlaps(&bounds(1, 3), &collator), Overlap::Wide);
    assert_eq!(
        overlaps(&collator, &bounds(1, 4), &bounds(4, 5)),
        Overlap::Less
    );
}

#[test]
fn test_overlap_unbounded_endpoints() {
    let collator = Collator::<u32>::default();
    // a range unbounded below, entirely before the other
    assert_eq!(
        (Bound::Unbounded, Bound::Excluded(1)).overlaps(&bounds(2, 5), &collator),
        Overlap::Less
    );
    // a range unbounded above, containing the other
    assert_eq!(
        (Bound::Included(1), Bound::Unbounded).overlaps(&bounds(3, 5), &collator),
        Overlap::Wide
    );
    // a bounded range hanging off the low side of one unbounded above
    assert_eq!(
        bounds(1, 4).overlaps(&(Bound::Included(3), Bound::Unbounded), &collator),
        Overlap::WideLess
    );
    assert_eq!(
        (Bound::<u32>::Unbounded, Bound::<u32>::Unbounded).overlaps(
            &(Bound::Unbounded, Bound::Unbounded),
            &collator
        ),
        Overlap::Equal
    );
}

#[test]
fn test_overlap_from_ordering() {
    assert_eq!(Overlap::from(Ordering::Less), Overlap::Less);
    assert_eq!(Overlap::from(Ordering::Equal), Overlap::Equal);
    assert_eq!(Overlap::from(Ordering::Greater), Overlap::Greater);
}

#[test]
fn test_overlaps_reverse_round_trip() {
    // the reverse of one classification is the classification with the
    // arguments swapped, shared endpoints included
    let collator = Collator::<u32>::default();
    let pairs = [
        (bounds(1, 4), bounds(3, 5)),
        (bounds(0, 1), bounds(2, 5)),
        (bounds(1, 5), bounds(3, 5)),
        (bounds(1, 5), bounds(1, 3)),
        (bounds(2, 6), bounds(2, 6)),
    ];
    for (a, b) in pairs {
        assert_eq!(a.overlaps(&b, &collator).reverse(), b.overlaps(&a, &collator));
    }
}

#[test]
fn test_contains_implies_contains_partial() {
    let collator = Collator::<u32>::default();
    let outer = bounds(1, 7);
    let inner = bounds(3, 5);
    assert!(outer.contains(&inner, &collator));
    // a range sharing the outer range's end still lies entirely within it
    assert!(bounds(1, 5).contains(&bounds(3, 5), &collator));
    assert!(outer.contains_partial(&inner, &collator));
    assert!(!inner.contains(&outer, &collator));
    assert!(inner.contains_partial(&outer, &collator));
    assert!(!bounds(0, 1).contains_partial(&bounds(2, 5), &collator));
}

#[test]
fn test_overlap_then() {
    assert_eq!(Overlap::Narrow.then(Overlap::Less), Overlap::WideLess);
    assert_eq!(Overlap::WideLess.then(Overlap::WideGreater), Overlap::Wide);
    assert_eq!(Overlap::Less.then(Overlap::Greater), Overlap::Wide);
    assert_eq!(Overlap::Less.then(Overlap::Less), Overlap::Less);
    assert_eq!(Overlap::Equal.then(Overlap::Narrow), Overlap::Narrow);
    assert_eq!(Overlap::Wide.then(Overlap::Less), Overlap::Wide);
}

#[test]
fn test_overlap_then_associative_sample() {
    for a in ALL {
        for b in ALL {
            for c in ALL {
                assert_eq!(a.then(b).then(c), a.then(b.then(c)));
            }
        }
    }
}

const ALL: [Overlap; 7] = [
    Overlap::Less,
    Overlap::Greater,
    Overlap::Equal,
    Overlap::Narrow,
    Overlap::Wide,
    Overlap::WideLess,
    Overlap::WideGreater,
];

#[test]
fn test_overlap_reverse() {
    assert_eq!(Overlap::Less.reverse(), Overlap::Greater);
    assert_eq!(Overlap::Greater.reverse(), Overlap::Less);
    assert_eq!(Overlap::Equal.reverse(), Overlap::Equal);
    assert_eq!(Overlap::Narrow.reverse(), Overlap::Wide);
    assert_eq!(Overlap::Wide.reverse(), Overlap::Narrow);
    assert_eq!(Overlap::WideLess.reverse(), Overlap::WideGreater);
    assert_eq!(Overlap::WideGreater.reverse(), Overlap::WideLess);
}

#[test]
fn test_overlaps_value() {
    let collator = Collator::<u32>::default();
    let range = bounds(1, 4);
    assert_eq!(range.overlaps_value(&0, &collator), Overlap::Greater);
    assert_eq!(range.overlaps_value(&1, &collator), Overlap::WideGreater);
    assert_eq!(range.overlaps_value(&2, &collator), Overlap::Wide);
    assert_eq!(range.overlaps_value(&4, &collator), Overlap::Less);
    assert_eq!(overlaps_value(&range, &3, &collator), Overlap::Wide);
    assert_eq!(
        (Bound::Included(1), Bound::Included(4)).overlaps_value(&4, &collator),
        Overlap::WideLess
    );
    assert_eq!(
        (Bound::<u32>::Unbounded, Bound::<u32>::Unbounded).overlaps_value(&7, &collator),
        Overlap::Wide
    );
}

#[test]
fn test_contains_value() {
    let collator = Collator::<u32>::default();
    let range = bounds(1, 4);
    assert!(range.contains_value(&1, &collator));
    assert!(range.contains_value(&3, &collator));
    assert!(!range.contains_value(&0, &collator));
    assert!(!range.contains_value(&4, &collator));
}
