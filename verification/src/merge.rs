//! Order-preserving merge of two sorted sequences: a pull-based state
//! machine that buffers at most one pending item per side, and a driver that
//! merges two vectors whole.

use vstd::prelude::*;

use core::cmp::Ordering;

use crate::Collate;

verus! {

/// The contents of a pending slot, as a sequence of zero or one items.
pub open spec fn opt_seq<T>(o: Option<T>) -> Seq<T> {
    match o {
        Some(v) => seq![v],
        None => Seq::empty(),
    }
}

/// The number of items in a pending slot.
pub open spec fn opt_len<T>(o: Option<T>) -> nat {
    match o {
        Some(v) => 1,
        None => 0,
    }
}

/// The merge of the sorted sequences `left` and `right` under `collator`:
/// the lesser head goes first, and equal heads are emitted once (the left
/// one), deduplicating across the two inputs.
pub open spec fn merge_seq<C: Collate>(
    collator: C,
    left: Seq<<C as Collate>::Value>,
    right: Seq<<C as Collate>::Value>,
) -> Seq<<C as Collate>::Value>
    decreases left.len() + right.len(),
{
    if left.len() == 0 {
        right
    } else if right.len() == 0 {
        left
    } else {
        match collator.cmp_spec(left[0], right[0]) {
            Ordering::Equal => seq![left[0]] + merge_seq(collator, left.skip(1), right.skip(1)),
            Ordering::Less => seq![left[0]] + merge_seq(collator, left.skip(1), right),
            Ordering::Greater => seq![right[0]] + merge_seq(collator, left, right.skip(1)),
        }
    }
}

/// Whether `s` is sorted ascending under `collator`, between every pair of
/// positions (ties allowed).
pub open spec fn sorted_seq<C: Collate>(collator: C, s: Seq<<C as Collate>::Value>) -> bool {
    forall|i: int, j: int|
        0 <= i <= j < s.len() ==> #[trigger] collator.cmp_spec(s[i], s[j]) != Ordering::Greater
}

/// Whether `s` is sorted strictly ascending under `collator`: every earlier
/// element compares `Less` than every later one.
pub open spec fn sorted_strict<C: Collate>(collator: C, s: Seq<<C as Collate>::Value>) -> bool {
    forall|i: int, j: int|
        0 <= i < j < s.len() ==> #[trigger] collator.cmp_spec(s[i], s[j]) == Ordering::Less
}

/// Whether no element of `left` compares `Equal` to any element of `right`.
pub open spec fn no_equal_pair<C: Collate>(
    collator: C,
    left: Seq<<C as Collate>::Value>,
    right: Seq<<C as Collate>::Value>,
) -> bool {
    forall|i: int, j: int|
        0 <= i < left.len() && 0 <= j < right.len() ==> #[trigger] collator.cmp_spec(
            left[i],
            right[j],
        ) != Ordering::Equal
}

/// A sorted sequence stays sorted when its first element is dropped.
pub proof fn lemma_sorted_skip<C: Collate>(collator: C, s: Seq<<C as Collate>::Value>)
    requires
        sorted_seq(collator, s),
        s.len() > 0,
    ensures
        sorted_seq(collator, s.skip(1)),
{
    assert forall|i: int, j: int| 0 <= i <= j < s.skip(1).len() implies #[trigger] collator.cmp_spec(
        s.skip(1)[i],
        s.skip(1)[j],
    ) != Ordering::Greater by {
        assert(s.skip(1)[i] == s[i + 1]);
        assert(s.skip(1)[j] == s[j + 1]);
        assert(collator.cmp_spec(s[i + 1], s[j + 1]) != Ordering::Greater);
    }
}

/// A member of a sequence without its first element is a member of the whole
/// sequence.
pub(crate) proof fn lemma_skip_contains<T>(s: Seq<T>, x: T)
    requires
        s.len() > 0,
        s.skip(1).contains(x),
    ensures
        s.contains(x),
{
    let i = choose|i: int| 0 <= i < s.skip(1).len() && s.skip(1)[i] == x;
    assert(s[i + 1] == x);
}

/// Every item of the merge of `left` and `right` appeared in `left` or in
/// `right`.
pub proof fn lemma_merge_membership<C: Collate>(
    collator: C,
    left: Seq<<C as Collate>::Value>,
    right: Seq<<C as Collate>::Value>,
)
    ensures
        forall|k: int|
            0 <= k < merge_seq(collator, left, right).len() ==> left.contains(
                #[trigger] merge_seq(collator, left, right)[k],
            ) || right.contains(merge_seq(collator, left, right)[k]),
    decreases left.len() + right.len(),
{
    let m = merge_seq(collator, left, right);
    if left.len() == 0 {
        assert forall|k: int| 0 <= k < m.len() implies left.contains(#[trigger] m[k])
            || right.contains(m[k]) by {
            assert(right[k] == m[k]);
        }
    } else if right.len() == 0 {
        assert forall|k: int| 0 <= k < m.len() implies left.contains(#[trigger] m[k])
            || right.contains(m[k]) by {
            assert(left[k] == m[k]);
        }
    } else {
        let rest = match collator.cmp_spec(left[0], right[0]) {
            Ordering::Equal => merge_seq(collator, left.skip(1), right.skip(1)),
            Ordering::Less => merge_seq(collator, left.skip(1), right),
            Ordering::Greater => merge_seq(collator, left, right.skip(1)),
        };
        match collator.cmp_spec(left[0], right[0]) {
            Ordering::Equal => lemma_merge_membership(collator, left.skip(1), right.skip(1)),
            Ordering::Less => lemma_merge_membership(collator, left.skip(1), right),
            Ordering::Greater => lemma_merge_membership(collator, left, right.skip(1)),
        }
        assert forall|k: int| 0 <= k < m.len() implies left.contains(#[trigger] m[k])
            || right.contains(m[k]) by {
            if k == 0 {
                match collator.cmp_spec(left[0], right[0]) {
                    Ordering::Greater => assert(right[0] == m[0]),
                    _ => assert(left[0] == m[0]),
                }
            } else {
                assert(m[k] == rest[k - 1]);
                match collator.cmp_spec(left[0], right[0]) {
                    Ordering::Equal => {
                        if left.skip(1).contains(rest[k - 1]) {
                            lemma_skip_contains(left, rest[k - 1]);
                        } else {
                            lemma_skip_contains(right, rest[k - 1]);
                        }
                    },
                    Ordering::Less => {
                        if left.skip(1).contains(rest[k - 1]) {
                            lemma_skip_contains(left, rest[k - 1]);
                        }
                    },
                    Ordering::Greater => {
                        if right.skip(1).contains(rest[k - 1]) {
                            lemma_skip_contains(right, rest[k - 1]);
                        }
                    },
                }
            }
        }
    }
}

/// The merge of two sorted sequences is at most as long as the two together,
/// with equality exactly when no element of one compares `Equal` to an
/// element of the other (an equal pair is emitted once).
pub proof fn lemma_merge_length<C: Collate>(
    collator: C,
    left: Seq<<C as Collate>::Value>,
    right: Seq<<C as Collate>::Value>,
)
    requires
        sorted_seq(collator, left),
        sorted_seq(collator, right),
    ensures
        merge_seq(collator, left, right).len() <= left.len() + right.len(),
        (merge_seq(collator, left, right).len() == left.len() + right.len()) <==> no_equal_pair(
            collator,
            left,
            right,
        ),
    decreases left.len() + right.len(),
{
    if left.len() == 0 || right.len() == 0 {
    } else {
        match collator.cmp_spec(left[0], right[0]) {
            Ordering::Equal => {
                lemma_sorted_skip(collator, left);
                lemma_sorted_skip(collator, right);
                lemma_merge_length(collator, left.skip(1), right.skip(1));
            },
            Ordering::Less => {
                lemma_sorted_skip(collator, left);
                lemma_merge_length(collator, left.skip(1), right);
                assert(no_equal_pair(collator, left.skip(1), right) ==> no_equal_pair(
                    collator,
                    left,
                    right,
                )) by {
                    if no_equal_pair(collator, left.skip(1), right) {
                        assert forall|i: int, j: int|
                            0 <= i < left.len() && 0 <= j < right.len() implies #[trigger] collator.cmp_spec(
                            left[i],
                            right[j],
                        ) != Ordering::Equal by {
                            if i == 0 {
                                crate::lemma_less_le_less(collator, left[0], right[0], right[j]);
                            } else {
                                assert(left.skip(1)[i - 1] == left[i]);
                                assert(collator.cmp_spec(left.skip(1)[i - 1], right[j])
                                    != Ordering::Equal);
                            }
                        }
                    }
                }
                assert(no_equal_pair(collator, left, right) ==> no_equal_pair(
                    collator,
                    left.skip(1),
                    right,
                )) by {
                    if no_equal_pair(collator, left, right) {
                        assert forall|i: int, j: int|
                            0 <= i < left.skip(1).len() && 0 <= j < right.len()
                            implies #[trigger] collator.cmp_spec(left.skip(1)[i], right[j])
                            != Ordering::Equal by {
                            assert(left.skip(1)[i] == left[i + 1]);
                            assert(collator.cmp_spec(left[i + 1], right[j]) != Ordering::Equal);
                        }
                    }
                }
            },
            Ordering::Greater => {
                lemma_sorted_skip(collator, right);
                lemma_merge_length(collator, left, right.skip(1));
                assert(no_equal_pair(collator, left, right.skip(1)) ==> no_equal_pair(
                    collator,
                    left,
                    right,
                )) by {
                    if no_equal_pair(collator, left, right.skip(1)) {
                        assert forall|i: int, j: int|
                            0 <= i < left.len() && 0 <= j < right.len() implies #[trigger] collator.cmp_spec(
                            left[i],
                            right[j],
                        ) != Ordering::Equal by {
                            if j == 0 {
                                collator.antisymmetry(left[0], right[0]);
                                crate::lemma_less_le_less(collator, right[0], left[0], left[i]);
                                collator.antisymmetry(left[i], right[0]);
                            } else {
                                assert(right.skip(1)[j - 1] == right[j]);
                                assert(collator.cmp_spec(left[i], right.skip(1)[j - 1])
                                    != Ordering::Equal);
                            }
                        }
                    }
                }
                assert(no_equal_pair(collator, left, right) ==> no_equal_pair(
                    collator,
                    left,
                    right.skip(1),
                )) by {
                    if no_equal_pair(collator, left, right) {
                        assert forall|i: int, j: int|
                            0 <= i < left.len() && 0 <= j < right.skip(1).len()
                            implies #[trigger] collator.cmp_spec(left[i], right.skip(1)[j])
                            != Ordering::Equal by {
                            assert(right.skip(1)[j] == right[j + 1]);
                            assert(collator.cmp_spec(left[i], right[j + 1]) != Ordering::Equal);
                        }
                    }
                }
            },
        }
    }
}

/// The merge of two sorted sequences is sorted.
pub proof fn lemma_merge_sorted<C: Collate>(
    collator: C,
    left: Seq<<C as Collate>::Value>,
    right: Seq<<C as Collate>::Value>,
)
    requires
        sorted_seq(collator, left),
        sorted_seq(collator, right),
    ensures
        sorted_seq(collator, merge_seq(collator, left, right)),
    decreases left.len() + right.len(),
{
    let m = merge_seq(collator, left, right);
    if left.len() == 0 || right.len() == 0 {
    } else {
        let head = match collator.cmp_spec(left[0], right[0]) {
            Ordering::Greater => right[0],
            _ => left[0],
        };
        let lrest = match collator.cmp_spec(left[0], right[0]) {
            Ordering::Greater => left,
            _ => left.skip(1),
        };
        let rrest = match collator.cmp_spec(left[0], right[0]) {
            Ordering::Less => right,
            _ => right.skip(1),
        };
        let rest = merge_seq(collator, lrest, rrest);
        if left.len() > 1 || collator.cmp_spec(left[0], right[0]) is Greater {
            lemma_sorted_skip(collator, left);
        }
        if right.len() > 1 || collator.cmp_spec(left[0], right[0]) is Less {
            lemma_sorted_skip(collator, right);
        }
        lemma_merge_sorted(
            collator,
            if collator.cmp_spec(left[0], right[0]) is Greater {
                left
            } else {
                left.skip(1)
            },
            if collator.cmp_spec(left[0], right[0]) is Less {
                right
            } else {
                right.skip(1)
            },
        );
        lemma_merge_membership(
            collator,
            if collator.cmp_spec(left[0], right[0]) is Greater {
                left
            } else {
                left.skip(1)
            },
            if collator.cmp_spec(left[0], right[0]) is Less {
                right
            } else {
                right.skip(1)
            },
        );
        assert forall|k: int| 1 <= k < m.len() implies collator.cmp_spec(head, #[trigger] m[k])
            != Ordering::Greater by {
            assert(m[k] == rest[k - 1]);
            lemma_head_lower_bound(collator, left, right, rest[k - 1]);
        }
        assert forall|i: int, j: int| 0 <= i <= j < m.len() implies #[trigger] collator.cmp_spec(
            m[i],
            m[j],
        ) != Ordering::Greater by {
            if i == 0 {
                if j == 0 {
                    collator.antisymmetry(m[0], m[0]);
                } else {
                    assert(collator.cmp_spec(head, m[j]) != Ordering::Greater);
                }
            } else {
                assert(m[i] == rest[i - 1]);
                assert(m[j] == rest[j - 1]);
                assert(collator.cmp_spec(rest[i - 1], rest[j - 1]) != Ordering::Greater);
            }
        }
    }
}

/// Whether every element of `s` has an `Equal` counterpart in `m`.
pub open spec fn covered<C: Collate>(
    collator: C,
    s: Seq<<C as Collate>::Value>,
    m: Seq<<C as Collate>::Value>,
) -> bool {
    forall|i: int|
        0 <= i < s.len() ==> exists|k: int|
            0 <= k < m.len() && collator.cmp_spec(m[k], #[trigger] s[i]) == Ordering::Equal
}

/// Every element of either input to a merge has an `Equal` counterpart in
/// the output: an item is only ever dropped against an equal item that is
/// emitted in its place.
#[verifier::rlimit(60)]
pub proof fn lemma_merge_covers<C: Collate>(
    collator: C,
    left: Seq<<C as Collate>::Value>,
    right: Seq<<C as Collate>::Value>,
)
    ensures
        covered(collator, left, merge_seq(collator, left, right)),
        covered(collator, right, merge_seq(collator, left, right)),
    decreases left.len() + right.len(),
{
    let m = merge_seq(collator, left, right);
    if left.len() == 0 {
        assert forall|i: int| 0 <= i < right.len() implies exists|k: int|
            0 <= k < m.len() && collator.cmp_spec(m[k], #[trigger] right[i])
                == Ordering::Equal by {
            collator.antisymmetry(right[i], right[i]);
            assert(collator.cmp_spec(m[i], right[i]) == Ordering::Equal);
        }
    } else if right.len() == 0 {
        assert forall|i: int| 0 <= i < left.len() implies exists|k: int|
            0 <= k < m.len() && collator.cmp_spec(m[k], #[trigger] left[i]) == Ordering::Equal by {
            collator.antisymmetry(left[i], left[i]);
            assert(collator.cmp_spec(m[i], left[i]) == Ordering::Equal);
        }
    } else {
        match collator.cmp_spec(left[0], right[0]) {
            Ordering::Equal => {
                let rest = merge_seq(collator, left.skip(1), right.skip(1));
                lemma_merge_covers(collator, left.skip(1), right.skip(1));
                assert(m == seq![left[0]] + rest);
                assert forall|i: int| 0 <= i < left.len() implies exists|k: int|
                    0 <= k < m.len() && collator.cmp_spec(m[k], #[trigger] left[i])
                        == Ordering::Equal by {
                    if i == 0 {
                        collator.antisymmetry(left[0], left[0]);
                        assert(collator.cmp_spec(m[0], left[0]) == Ordering::Equal);
                    } else {
                        assert(left.skip(1)[i - 1] == left[i]);
                        let k = choose|k: int|
                            0 <= k < rest.len() && collator.cmp_spec(rest[k], left.skip(1)[i - 1])
                                == Ordering::Equal;
                        assert(collator.cmp_spec(m[k + 1], left[i]) == Ordering::Equal);
                    }
                }
                assert forall|i: int| 0 <= i < right.len() implies exists|k: int|
                    0 <= k < m.len() && collator.cmp_spec(m[k], #[trigger] right[i])
                        == Ordering::Equal by {
                    if i == 0 {
                        assert(collator.cmp_spec(m[0], right[0]) == Ordering::Equal);
                    } else {
                        assert(right.skip(1)[i - 1] == right[i]);
                        let k = choose|k: int|
                            0 <= k < rest.len() && collator.cmp_spec(rest[k], right.skip(1)[i - 1])
                                == Ordering::Equal;
                        assert(collator.cmp_spec(m[k + 1], right[i]) == Ordering::Equal);
                    }
                }
            },
            Ordering::Less => {
                let rest = merge_seq(collator, left.skip(1), right);
                lemma_merge_covers(collator, left.skip(1), right);
                assert(m == seq![left[0]] + rest);
                assert forall|i: int| 0 <= i < left.len() implies exists|k: int|
                    0 <= k < m.len() && collator.cmp_spec(m[k], #[trigger] left[i])
                        == Ordering::Equal by {
                    if i == 0 {
                        collator.antisymmetry(left[0], left[0]);
                        assert(collator.cmp_spec(m[0], left[0]) == Ordering::Equal);
                    } else {
                        assert(left.skip(1)[i - 1] == left[i]);
                        let k = choose|k: int|
                            0 <= k < rest.len() && collator.cmp_spec(rest[k], left.skip(1)[i - 1])
                                == Ordering::Equal;
                        assert(collator.cmp_spec(m[k + 1], left[i]) == Ordering::Equal);
                    }
                }
                assert forall|i: int| 0 <= i < right.len() implies exists|k: int|
                    0 <= k < m.len() && collator.cmp_spec(m[k], #[trigger] right[i])
                        == Ordering::Equal by {
                    let k = choose|k: int|
                        0 <= k < rest.len() && collator.cmp_spec(rest[k], right[i])
                            == Ordering::Equal;
                    assert(collator.cmp_spec(m[k + 1], right[i]) == Ordering::Equal);
                }
            },
            Ordering::Greater => {
                let rest = merge_seq(collator, left, right.skip(1));
                lemma_merge_covers(collator, left, right.skip(1));
                assert(m == seq![right[0]] + rest);
                assert forall|i: int| 0 <= i < left.len() implies exists|k: int|
                    0 <= k < m.len() && collator.cmp_spec(m[k], #[trigger] left[i])
                        == Ordering::Equal by {
                    let k = choose|k: int|
                        0 <= k < rest.len() && collator.cmp_spec(rest[k], left[i])
                            == Ordering::Equal;
                    assert(collator.cmp_spec(m[k + 1], left[i]) == Ordering::Equal);
                }
                assert forall|i: int| 0 <= i < right.len() implies exists|k: int|
                    0 <= k < m.len() && collator.cmp_spec(m[k], #[trigger] right[i])
                        == Ordering::Equal by {
                    if i == 0 {
                        collator.antisymmetry(right[0], right[0]);
                        assert(collator.cmp_spec(m[0], right[0]) == Ordering::Equal);
                    } else {
                        assert(right.skip(1)[i - 1] == right[i]);
                        let k = choose|k: int|
                            0 <= k < rest.len() && collator.cmp_spec(rest[k], right.skip(1)[i - 1])
                                == Ordering::Equal;
                        assert(collator.cmp_spec(m[k + 1], right[i]) == Ordering::Equal);
                    }
                }
            },
        }
    }
}

/// The head emitted by a merge of two sorted non-empty sequences is a lower
/// bound of every element remaining in either input after the decision.
proof fn lemma_head_lower_bound<C: Collate>(
    collator: C,
    left: Seq<<C as Collate>::Value>,
    right: Seq<<C as Collate>::Value>,
    x: <C as Collate>::Value,
)
    requires
        sorted_seq(collator, left),
        sorted_seq(collator, right),
        left.len() > 0,
        right.len() > 0,
        match collator.cmp_spec(left[0], right[0]) {
            Ordering::Equal => left.skip(1).contains(x) || right.skip(1).contains(x),
            Ordering::Less => left.skip(1).contains(x) || right.contains(x),
            Ordering::Greater => left.contains(x) || right.skip(1).contains(x),
        },
    ensures
        collator.cmp_spec(
            match collator.cmp_spec(left[0], right[0]) {
                Ordering::Greater => right[0],
                _ => left[0],
            },
            x,
        ) != Ordering::Greater,
{
    match collator.cmp_spec(left[0], right[0]) {
        Ordering::Equal => {
            if left.skip(1).contains(x) {
                let i = choose|i: int| 0 <= i < left.skip(1).len() && left.skip(1)[i] == x;
                assert(left[i + 1] == x);
                assert(collator.cmp_spec(left[0], left[i + 1]) != Ordering::Greater);
            } else {
                let j = choose|j: int| 0 <= j < right.skip(1).len() && right.skip(1)[j] == x;
                assert(right[j + 1] == x);
                collator.transitivity(left[0], right[0], right[j + 1]);
            }
        },
        Ordering::Less => {
            if left.skip(1).contains(x) {
                let i = choose|i: int| 0 <= i < left.skip(1).len() && left.skip(1)[i] == x;
                assert(left[i + 1] == x);
                assert(collator.cmp_spec(left[0], left[i + 1]) != Ordering::Greater);
            } else {
                let j = choose|j: int| 0 <= j < right.len() && right[j] == x;
                crate::lemma_less_le_less(collator, left[0], right[0], right[j]);
            }
        },
        Ordering::Greater => {
            collator.antisymmetry(left[0], right[0]);
            if left.contains(x) {
                let i = choose|i: int| 0 <= i < left.len() && left[i] == x;
                crate::lemma_less_le_less(collator, right[0], left[0], left[i]);
            } else {
                let j = choose|j: int| 0 <= j < right.skip(1).len() && right.skip(1)[j] == x;
                assert(right[j + 1] == x);
                assert(collator.cmp_spec(right[0], right[j + 1]) != Ordering::Greater);
            }
        },
    }
}

/// The state of a merge of two sorted inputs: at most one pending item per
/// side, and a flag per side remembering its exhaustion. The caller drives
/// it: top up each side with [`Merge::feed_left`] and [`Merge::feed_right`]
/// while [`Merge::needs_left`] or [`Merge::needs_right`] holds, then take
/// the next decision from [`Merge::step`].
pub struct Merge<C: Collate> {
    /// The collator deciding the order of emission.
    pub collator: C,
    /// The buffered next item of the left input, if any.
    pub pending_left: Option<<C as Collate>::Value>,
    /// The buffered next item of the right input, if any.
    pub pending_right: Option<<C as Collate>::Value>,
    /// Whether the left input is exhausted.
    pub left_done: bool,
    /// Whether the right input is exhausted.
    pub right_done: bool,
}

impl<C: Collate> Merge<C> {
    /// A merge with empty pending slots and both inputs still live.
    pub fn new(collator: C) -> (s: Self)
        ensures
            s.collator == collator,
            s.pending_left is None,
            s.pending_right is None,
            !s.left_done,
            !s.right_done,
    {
        Merge {
            collator,
            pending_left: None,
            pending_right: None,
            left_done: false,
            right_done: false,
        }
    }

    /// Whether the left pending slot must be topped up before the next step.
    pub fn needs_left(&self) -> (r: bool)
        ensures
            r == (self.pending_left is None && !self.left_done),
    {
        self.pending_left.is_none() && !self.left_done
    }

    /// Whether the right pending slot must be topped up before the next step.
    pub fn needs_right(&self) -> (r: bool)
        ensures
            r == (self.pending_right is None && !self.right_done),
    {
        self.pending_right.is_none() && !self.right_done
    }

    /// Whether the merge has terminated: both inputs exhausted and nothing
    /// pending.
    pub fn is_done(&self) -> (r: bool)
        ensures
            r == (self.pending_left is None && self.pending_right is None && self.left_done
                && self.right_done),
    {
        self.pending_left.is_none() && self.pending_right.is_none() && self.left_done
            && self.right_done
    }

    /// Hand the left input's next item to the merge, or `None` when the left
    /// input is exhausted.
    pub fn feed_left(&mut self, item: Option<<C as Collate>::Value>)
        requires
            old(self).pending_left is None,
            !old(self).left_done,
        ensures
            final(self).collator == old(self).collator,
            final(self).pending_right == old(self).pending_right,
            final(self).right_done == old(self).right_done,
            final(self).pending_left == item,
            final(self).left_done == (item is None),
    {
        match item {
            Some(value) => self.pending_left = Some(value),
            None => self.left_done = true,
        }
    }

    /// Hand the right input's next item to the merge, or `None` when the
    /// right input is exhausted.
    pub fn feed_right(&mut self, item: Option<<C as Collate>::Value>)
        requires
            old(self).pending_right is None,
            !old(self).right_done,
        ensures
            final(self).collator == old(self).collator,
            final(self).pending_left == old(self).pending_left,
            final(self).left_done == old(self).left_done,
            final(self).pending_right == item,
            final(self).right_done == (item is None),
    {
        match item {
            Some(value) => self.pending_right = Some(value),
            None => self.right_done = true,
        }
    }

    /// Decide the next emission, once neither side needs a top-up: with both
    /// sides pending, the lesser item is emitted and cleared, and equal items
    /// are emitted once with both slots cleared; with one side pending and
    /// the other exhausted, the pending item passes through; with both
    /// exhausted and nothing pending, the merge is done and `None` comes
    /// back.
    pub fn step(&mut self) -> (r: Option<<C as Collate>::Value>)
        requires
            old(self).pending_left is Some || old(self).left_done,
            old(self).pending_right is Some || old(self).right_done,
        ensures
            final(self).collator == old(self).collator,
            final(self).left_done == old(self).left_done,
            final(self).right_done == old(self).right_done,
            match (old(self).pending_left, old(self).pending_right) {
                (Some(a), Some(b)) => match old(self).collator.cmp_spec(a, b) {
                    Ordering::Equal => r == Some(a) && final(self).pending_left is None
                        && final(self).pending_right is None,
                    Ordering::Less => r == Some(a) && final(self).pending_left is None
                        && final(self).pending_right == old(self).pending_right,
                    Ordering::Greater => r == Some(b) && final(self).pending_right is None
                        && final(self).pending_left == old(self).pending_left,
                },
                (Some(a), None) => r == Some(a) && final(self).pending_left is None
                    && final(self).pending_right is None,
                (None, Some(b)) => r == Some(b) && final(self).pending_left is None
                    && final(self).pending_right is None,
                (None, None) => r is None && final(self).pending_left is None
                    && final(self).pending_right is None,
            },
    {
        if self.pending_left.is_some() && self.pending_right.is_some() {
            let order = {
                let a = self.pending_left.as_ref().unwrap();
                let b = self.pending_right.as_ref().unwrap();
                self.collator.compare(a, b)
            };
            match order {
                Ordering::Equal => {
                    self.pending_right = None;
                    self.pending_left.take()
                },
                Ordering::Less => self.pending_left.take(),
                Ordering::Greater => self.pending_right.take(),
            }
        } else if self.pending_left.is_some() {
            self.pending_left.take()
        } else if self.pending_right.is_some() {
            self.pending_right.take()
        } else {
            None
        }
    }
}

/// Merge two sorted vectors into one using the given `collator`: the result
/// is exactly [`merge_seq`] of the inputs. Both inputs **must** be sorted
/// under `collator` for the result to be sorted; the equation holds either
/// way.
#[verifier::rlimit(60)]
pub fn merge<C: Collate>(
    collator: C,
    left: Vec<<C as Collate>::Value>,
    right: Vec<<C as Collate>::Value>,
) -> (out: Vec<<C as Collate>::Value>)
    ensures
        out@ == merge_seq(collator, left@, right@),
{
    let ghost l0 = left@;
    let ghost r0 = right@;
    let mut lvec = left;
    let mut rvec = right;
    let mut state = Merge::new(collator);
    let mut out: Vec<<C as Collate>::Value> = Vec::new();
    proof {
        assert(opt_seq(state.pending_left) + lvec@ =~= lvec@);
        assert(opt_seq(state.pending_right) + rvec@ =~= rvec@);
    }
    while !state.is_done()
        invariant
            state.collator == collator,
            state.left_done ==> lvec@.len() == 0,
            state.right_done ==> rvec@.len() == 0,
            out@ + merge_seq(
                collator,
                opt_seq(state.pending_left) + lvec@,
                opt_seq(state.pending_right) + rvec@,
            ) == merge_seq(collator, l0, r0),
        decreases lvec@.len() + rvec@.len() + opt_len(state.pending_left) + opt_len(
            state.pending_right,
        ) + (if state.left_done {
            0int
        } else {
            1
        }) + (if state.right_done {
            0int
        } else {
            1
        }),
    {
        let ghost pre_left = opt_seq(state.pending_left) + lvec@;
        let ghost pre_right = opt_seq(state.pending_right) + rvec@;
        if state.needs_left() {
            if lvec.len() > 0 {
                let value = lvec.remove(0);
                proof {
                    assert(opt_seq(Some(value)) + lvec@ =~= pre_left);
                }
                state.feed_left(Some(value));
            } else {
                state.feed_left(None);
            }
        }
        if state.needs_right() {
            if rvec.len() > 0 {
                let value = rvec.remove(0);
                proof {
                    assert(opt_seq(Some(value)) + rvec@ =~= pre_right);
                }
                state.feed_right(Some(value));
            } else {
                state.feed_right(None);
            }
        }
        proof {
            assert(opt_seq(state.pending_left) + lvec@ =~= pre_left);
            assert(opt_seq(state.pending_right) + rvec@ =~= pre_right);
        }
        let decision = state.step();
        proof {
            let ghost_decision = decision;
            let post_left = opt_seq(state.pending_left) + lvec@;
            let post_right = opt_seq(state.pending_right) + rvec@;
            match ghost_decision {
                Some(v) => {
                    if pre_left.len() > 0 && pre_right.len() > 0 {
                        match collator.cmp_spec(pre_left[0], pre_right[0]) {
                            Ordering::Equal => {
                                assert(pre_left.skip(1) =~= post_left);
                                assert(pre_right.skip(1) =~= post_right);
                            },
                            Ordering::Less => {
                                assert(pre_left.skip(1) =~= post_left);
                                assert(pre_right =~= post_right);
                            },
                            Ordering::Greater => {
                                assert(pre_right.skip(1) =~= post_right);
                                assert(pre_left =~= post_left);
                            },
                        }
                    } else if pre_left.len() > 0 {
                        assert(merge_seq(collator, pre_left, pre_right) == pre_left);
                        assert(pre_left.skip(1) =~= post_left);
                        assert(merge_seq(collator, post_left, post_right) == post_left);
                    } else {
                        assert(merge_seq(collator, pre_left, pre_right) == pre_right);
                        assert(pre_right.skip(1) =~= post_right);
                        assert(merge_seq(collator, post_left, post_right) == post_right);
                    }
                    assert(merge_seq(collator, pre_left, pre_right) == seq![v] + merge_seq(
                        collator,
                        post_left,
                        post_right,
                    ));
                },
                None => (),
            }
        }
        match decision {
            Some(value) => out.push(value),
            None => (),
        }
    }
    proof {
        assert(merge_seq(
            collator,
            opt_seq(state.pending_left) + lvec@,
            opt_seq(state.pending_right) + rvec@,
        ) =~= Seq::<<C as Collate>::Value>::empty());
        assert(out@ =~= merge_seq(collator, l0, r0));
    }
    out
}

} // verus!
