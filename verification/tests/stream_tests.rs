use collate::diff::{diff, Diff, DiffStep};
use collate::merge::{merge, Merge};
use collate::try_diff::try_diff;
use collate::try_merge::try_merge;
use collate::Collator;

#[test]
fn stream_test_merge() {
    let collator = Collator::<u32>::default();

    let left = vec![1, 3, 5, 7, 8, 9, 20];
    let right = vec![2, 4, 6, 8, 9, 10, 11, 12];

    let expected = vec![1, 2, 3, 4, 5, 6, 7, 8, 9, 10, 11, 12, 20];
    let actual = merge(collator, left, right);

    assert_eq!(expected, actual);
}

#[test]
fn mod_test_merge() {
    let collator = Collator::<u32>::default();

    let left = vec![1, 3, 5, 7, 8, 9, 20];
    let right = vec![2, 4, 6, 8, 9, 10, 11, 12];

    let expected = vec![1, 2, 3, 4, 5, 6, 7, 8, 9, 10, 11, 12, 20];
    let actual = merge(collator, left, right);

    assert_eq!(expected, actual);
}

#[test]
fn test_diff() {
    let collator = Collator::<u32>::default();

    let left = vec![1, 3, 5, 7, 8, 9, 20];
    let right = vec![2, 4, 5, 6, 8, 9];

    let expected = vec![1, 3, 7, 20];
    let actual = diff(collator, left, right);

    assert_eq!(expected, actual);
}

#[test]
fn test_try_diff() {
    let collator = Collator::<u32>::default();

    let left = vec![1, 3, 5, 7, 8, 9, 20];
    let right = vec![2, 4, 5, 6, 8, 9];

    let expected = vec![1, 3, 7, 20];

    let outcome = try_diff(
        collator,
        left.into_iter().map(Result::<u32, String>::Ok).collect(),
        right.into_iter().map(Result::<u32, String>::Ok).collect(),
    );

    let mut actual = Vec::with_capacity(expected.len());
    for item in outcome {
        actual.push(item.expect("n"));
    }

    assert_eq!(expected, actual);
}

#[test]
fn test_try_merge() {
    let collator = Collator::<u32>::default();

    let left = vec![1, 3, 5, 7, 8, 9, 20];
    let right = vec![2, 4, 6, 8, 9, 10, 11, 12];

    let expected = vec![1, 2, 3, 4, 5, 6, 7, 8, 9, 10, 11, 12, 20];

    let outcome = try_merge(
        collator,
        left.into_iter().map(Result::<u32, String>::Ok).collect(),
        right.into_iter().map(Result::<u32, String>::Ok).collect(),
    );

    let mut actual = Vec::with_capacity(expected.len());
    for item in outcome {
        actual.push(item.expect("n"));
    }

    assert_eq!(expected, actual);
}

#[test]
fn test_diff_excludes_shared_items() {
    let collator = Collator::<u32>::default();

    let left = vec![1, 3, 5, 7, 8, 9, 20];
    let right = vec![2, 4, 6, 8, 9, 10, 11, 12];

    // 8 and 9 are present in both inputs and are excluded
    let expected = vec![1, 3, 5, 7, 20];
    let actual = diff(collator, left, right);

    assert_eq!(expected, actual);
}

#[test]
fn test_merge_deduplicates_equal_items() {
    let collator = Collator::<u32>::default();
    assert_eq!(merge(collator, vec![1, 2], vec![2, 3]), vec![1, 2, 3]);
    // with no equal pair, the output length is the sum of the input lengths
    assert_eq!(merge(collator, vec![1, 3], vec![2, 4]), vec![1, 2, 3, 4]);
}

#[test]
fn test_merge_empty_inputs() {
    let collator = Collator::<u32>::default();
    assert_eq!(merge(collator, vec![], vec![]), Vec::<u32>::new());
    assert_eq!(merge(collator, vec![1, 2], vec![]), vec![1, 2]);
    assert_eq!(merge(collator, vec![], vec![3]), vec![3]);
}

#[test]
fn test_diff_empty_inputs() {
    let collator = Collator::<u32>::default();
    assert_eq!(diff(collator, vec![], vec![1]), Vec::<u32>::new());
    assert_eq!(diff(collator, vec![1, 2], vec![]), vec![1, 2]);
}

#[test]
fn test_diff_cancels_one_for_one() {
    // each right item cancels at most one equal left item: the survivors of
    // a value are its left count less its right count
    let collator = Collator::<u32>::default();
    assert_eq!(diff(collator, vec![5, 5, 7], vec![5]), vec![5, 7]);
    assert_eq!(diff(collator, vec![5, 5], vec![5, 5, 6]), Vec::<u32>::new());
    assert_eq!(diff(collator, vec![5, 5, 5], vec![5]), vec![5, 5]);
}

#[test]
fn test_diff_merge_round_trip() {
    // merging the difference back with the right side restricted to the
    // common items reconstructs the left side
    let collator = Collator::<u32>::default();
    let left = vec![1, 3, 5];
    let right = vec![3, 4];
    let only_left = diff(collator, left.clone(), right.clone());
    assert_eq!(only_left, vec![1, 5]);
    let common: Vec<u32> = right.into_iter().filter(|x| left.contains(x)).collect();
    assert_eq!(common, vec![3]);
    let rebuilt = merge(collator, only_left, common);
    assert_eq!(rebuilt, left);
}

#[test]
fn test_try_diff_left_failure() {
    let collator = Collator::<u32>::default();

    // the third pull from the left input fails: the output holds exactly the
    // items decided before that pull, then the failure, then nothing further
    let left: Vec<Result<u32, String>> =
        vec![Ok(1), Ok(3), Err(String::from("broken")), Ok(9)];
    let right: Vec<Result<u32, String>> = vec![Ok(2), Ok(4)];

    let expected: Vec<Result<u32, String>> =
        vec![Ok(1), Ok(3), Err(String::from("broken"))];
    let actual = try_diff(collator, left, right);

    assert_eq!(expected, actual);
}

#[test]
fn test_try_merge_right_failure() {
    let collator = Collator::<u32>::default();

    let left: Vec<Result<u32, String>> = vec![Ok(5)];
    let right: Vec<Result<u32, String>> = vec![Err(String::from("broken")), Ok(6)];

    let expected: Vec<Result<u32, String>> = vec![Err(String::from("broken"))];
    let actual = try_merge(collator, left, right);

    assert_eq!(expected, actual);
}

#[test]
fn test_merge_state_machine() {
    let collator = Collator::<u32>::default();
    let mut state = Merge::new(collator);
    assert!(state.needs_left());
    assert!(state.needs_right());
    state.feed_left(Some(4));
    state.feed_right(Some(2));
    assert_eq!(state.step(), Some(2));
    assert!(!state.needs_left());
    assert!(state.needs_right());
    state.feed_right(None);
    assert_eq!(state.step(), Some(4));
    assert!(state.needs_left());
    state.feed_left(None);
    assert!(state.is_done());
    assert_eq!(state.step(), None);
}

#[test]
fn test_diff_state_machine() {
    let collator = Collator::<u32>::default();
    let mut state = Diff::new(collator);
    state.feed_left(Some(3));
    state.feed_right(Some(1));
    // the right item may still match a later left item, so it is dropped
    assert!(matches!(state.step(), DiffStep::Continue));
    state.feed_right(Some(3));
    assert!(matches!(state.step(), DiffStep::Continue));
    state.feed_left(Some(5));
    state.feed_right(None);
    assert!(matches!(state.step(), DiffStep::Emit(5)));
    state.feed_left(None);
    assert!(state.is_done());
    assert!(matches!(state.step(), DiffStep::Done));
}
