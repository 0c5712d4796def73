use collate::bisect::{bisect, bisect_left, bisect_right, compare_row, compare_row_to_range, is_sorted};
use collate::{Bound, Collator, Range};

use std::cmp::Ordering;

#[test]
fn test_compare_row() {
    let collator = Collator::<u32>::default();
    assert_eq!(compare_row(&collator, &vec![1, 2], &vec![1, 2]), Ordering::Equal);
    assert_eq!(compare_row(&collator, &vec![1, 2], &vec![1, 3]), Ordering::Less);
    assert_eq!(compare_row(&collator, &vec![1, 4], &vec![1, 3]), Ordering::Greater);
    // a strict prefix is less than any row extending it
    assert_eq!(compare_row(&collator, &vec![1, 2], &vec![1, 2, 3]), Ordering::Less);
    assert_eq!(compare_row(&collator, &vec![1, 2, 3], &vec![1, 2]), Ordering::Greater);
    assert_eq!(compare_row(&collator, &vec![], &vec![]), Ordering::Equal);
    assert_eq!(compare_row(&collator, &vec![], &vec![0]), Ordering::Less);
}

#[test]
fn test_is_sorted() {
    let collator = Collator::<u32>::default();
    let ascending = vec![vec![1], vec![2], vec![2], vec![3]];
    assert!(is_sorted(&collator, &ascending));
    let descending = vec![vec![3], vec![2], vec![2], vec![1]];
    assert!(is_sorted(&collator, &descending));
    let mixed = vec![vec![1], vec![3], vec![2]];
    assert!(!is_sorted(&collator, &mixed));
    let empty: Vec<Vec<u32>> = vec![];
    assert!(is_sorted(&collator, &empty));
    let single = vec![vec![9]];
    assert!(is_sorted(&collator, &single));
}

#[test]
fn test_bisect_left_right() {
    let collator = Collator::<u32>::default();
    let rows = vec![vec![1], vec![2], vec![2], vec![3]];
    assert_eq!(bisect_left(&collator, &rows, &vec![2]), 1);
    assert_eq!(bisect_right(&collator, &rows, &vec![2]), 3);
    assert_eq!(bisect_left(&collator, &rows, &vec![0]), 0);
    assert_eq!(bisect_right(&collator, &rows, &vec![0]), 0);
    assert_eq!(bisect_left(&collator, &rows, &vec![9]), 4);
    assert_eq!(bisect_right(&collator, &rows, &vec![9]), 4);
}

#[test]
fn test_bisect_empty_key_and_rows() {
    let collator = Collator::<u32>::default();
    let rows = vec![vec![1], vec![2]];
    // an empty key is a prefix of everything
    assert_eq!(bisect_left(&collator, &rows, &vec![]), 0);
    assert_eq!(bisect_right(&collator, &rows, &vec![]), 2);
    let empty: Vec<Vec<u32>> = vec![];
    assert_eq!(bisect_left(&collator, &empty, &vec![1]), 0);
    assert_eq!(bisect_right(&collator, &empty, &vec![1]), 0);
}

#[test]
fn test_bisect_key_prefix() {
    let collator = Collator::<u32>::default();
    let rows = vec![vec![1, 10], vec![2, 20], vec![2, 30], vec![3, 5]];
    // a one-component key matches every row sharing that first component
    assert_eq!(bisect_left(&collator, &rows, &vec![2]), 1);
    assert_eq!(bisect_right(&collator, &rows, &vec![2]), 3);
    assert_eq!(bisect_left(&collator, &rows, &vec![2, 30]), 2);
    assert_eq!(bisect_right(&collator, &rows, &vec![2, 20]), 2);
}

#[test]
fn test_bisect_brackets_matching_rows() {
    let collator = Collator::<u32>::default();
    let rows = vec![vec![1, 9], vec![2, 1], vec![2, 5], vec![2, 8], vec![3, 0]];
    assert!(is_sorted(&collator, &rows));
    let key = vec![2];
    let low = bisect_left(&collator, &rows, &key);
    let high = bisect_right(&collator, &rows, &key);
    assert!(low <= high);
    for (i, row) in rows.iter().enumerate() {
        if i < low {
            assert!(row[0] < 2);
        } else if i < high {
            assert_eq!(row[0], 2);
        } else {
            assert!(row[0] > 2);
        }
    }
}

#[test]
fn test_compare_row_to_range() {
    let collator = Collator::<u32>::default();
    let range = Range::new(vec![2], 20..31);
    assert_eq!(compare_row_to_range(&collator, &vec![1, 10], &range), Ordering::Less);
    assert_eq!(compare_row_to_range(&collator, &vec![2, 19], &range), Ordering::Less);
    assert_eq!(compare_row_to_range(&collator, &vec![2, 20], &range), Ordering::Equal);
    assert_eq!(compare_row_to_range(&collator, &vec![2, 30], &range), Ordering::Equal);
    assert_eq!(compare_row_to_range(&collator, &vec![2, 31], &range), Ordering::Greater);
    assert_eq!(compare_row_to_range(&collator, &vec![3, 5], &range), Ordering::Greater);
    // a row that ends inside the bounded dimension is less than the range
    assert_eq!(compare_row_to_range(&collator, &vec![2], &range), Ordering::Less);
    // the components beyond the bounded dimension are unconstrained
    assert_eq!(compare_row_to_range(&collator, &vec![2, 25, 99], &range), Ordering::Equal);
}

#[test]
fn test_bisect_range() {
    let collator = Collator::<u32>::default();
    let rows = vec![vec![1, 10], vec![2, 20], vec![2, 30], vec![3, 5]];
    let by_prefix = Range::with_prefix(vec![2]);
    assert_eq!(bisect(&collator, &rows, &by_prefix), (1, 3));
    let by_bounds = Range::new(vec![], 2..3);
    assert_eq!(bisect(&collator, &rows, &by_bounds), (1, 3));
    let by_both = Range::new(vec![2], 25..31);
    assert_eq!(bisect(&collator, &rows, &by_both), (2, 3));
    // a range with an empty prefix and no bounds matches the whole sequence
    let all = Range::default();
    assert_eq!(bisect(&collator, &rows, &all), (0, 4));
}

#[test]
fn test_range_accessors() {
    let range = Range::new(vec![1u32, 2], 3..7);
    assert!(range.has_bounds());
    assert_eq!(range.len(), 3);
    assert_eq!(range.prefix(), &vec![1, 2]);
    assert!(matches!(range.start(), Bound::Included(3)));
    assert!(matches!(range.end(), Bound::Excluded(7)));
    let (prefix, start, end) = range.into_inner();
    assert_eq!(prefix, vec![1, 2]);
    assert!(matches!(start, Bound::Included(3)));
    assert!(matches!(end, Bound::Excluded(7)));

    let bare = Range::with_prefix(vec![4u32]);
    assert!(!bare.has_bounds());
    assert_eq!(bare.len(), 1);

    let nothing = Range::<u32>::default();
    assert!(!nothing.has_bounds());
    assert_eq!(nothing.len(), 0);
    assert!(nothing.prefix().is_empty());
}

#[test]
fn test_range_from_tuples() {
    let range = Range::from((vec![1u32], 2..5));
    assert_eq!(range.prefix(), &vec![1]);
    assert!(matches!(range.start(), Bound::Included(2)));
    assert!(matches!(range.end(), Bound::Excluded(5)));

    let range = Range::from((vec![7u32], Bound::Excluded(1), Bound::Unbounded));
    assert_eq!(range.prefix(), &vec![7]);
    assert!(matches!(range.start(), Bound::Excluded(1)));
    assert!(matches!(range.end(), Bound::Unbounded));
}

#[test]
fn test_range_contains_preorder() {
    // containment is reflexive and transitive
    let collator = Collator::<u32>::default();
    let a = Range::new(vec![], 0..100);
    let b = Range::new(vec![], 10..50);
    let d = Range::with_prefix(vec![20]);
    assert!(a.contains(&a, &collator));
    assert!(d.contains(&d, &collator));
    assert!(a.contains(&b, &collator));
    assert!(b.contains(&d, &collator));
    assert!(a.contains(&d, &collator));
}

#[test]
fn test_range_contains() {
    let collator = Collator::<u32>::default();
    // equal prefix lengths: the inner start bound must begin at or after the
    // outer one
    let outer = Range::new(vec![1], 2..9);
    let inner = Range::new(vec![1], 3..5);
    assert!(outer.contains(&inner, &collator));
    let before = Range::new(vec![1], 1..5);
    assert!(!outer.contains(&before, &collator));
    // ... and its end bound must end at or before the outer one
    let past_end = Range::new(vec![1], 3..12);
    assert!(!outer.contains(&past_end, &collator));
    let narrow = Range::new(vec![], 0..5);
    let wide = Range::new(vec![], 0..100);
    assert!(!narrow.contains(&wide, &collator));
    assert!(wide.contains(&narrow, &collator));
    // a longer inner prefix: its first extra component must lie between the
    // outer bounds
    let deeper = Range::with_prefix(vec![1, 4]);
    assert!(outer.contains(&deeper, &collator));
    let outside = Range::with_prefix(vec![1, 9]);
    assert!(!outer.contains(&outside, &collator));
    // a diverging prefix never matches
    let elsewhere = Range::with_prefix(vec![2, 4]);
    assert!(!outer.contains(&elsewhere, &collator));
    // a shorter inner prefix never matches
    let shorter = Range::<u32>::default();
    assert!(!outer.contains(&shorter, &collator));
    // an unbounded outer range contains anything sharing its prefix
    let everything = Range::<u32>::default();
    assert!(everything.contains(&outer, &collator));
}
