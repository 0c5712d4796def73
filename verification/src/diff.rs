//! Order-preserving set-difference of two sorted sequences: a pull-based
//! state machine that buffers at most one pending item per side, and a
//! driver that differences two vectors whole.

use vstd::prelude::*;

use core::cmp::Ordering;

use crate::merge::{opt_len, opt_seq};
use crate::Collate;

verus! {

/// The difference of the sorted sequences `left` and `right` under
/// `collator`: the items of `left` without an `Equal` counterpart in
/// `right`, in their original order.
pub open spec fn diff_seq<C: Collate>(
    collator: C,
    left: Seq<<C as Collate>::Value>,
    right: Seq<<C as Collate>::Value>,
) -> Seq<<C as Collate>::Value>
    decreases left.len() + right.len(),
{
    if left.len() == 0 {
        Seq::empty()
    } else if right.len() == 0 {
        left
    } else {
        match collator.cmp_spec(left[0], right[0]) {
            Ordering::Equal => diff_seq(collator, left.skip(1), right.skip(1)),
            Ordering::Less => seq![left[0]] + diff_seq(collator, left.skip(1), right),
            Ordering::Greater => diff_seq(collator, left, right.skip(1)),
        }
    }
}

/// Whether some element of `s` compares `Equal` to `x` under `collator`.
pub open spec fn has_equal<C: Collate>(
    collator: C,
    s: Seq<<C as Collate>::Value>,
    x: <C as Collate>::Value,
) -> bool {
    exists|j: int| 0 <= j < s.len() && #[trigger] collator.cmp_spec(x, s[j]) == Ordering::Equal
}

/// The elements of `left` that have no `Equal` counterpart in `right`, in
/// their original relative order.
pub open spec fn unmatched<C: Collate>(
    collator: C,
    left: Seq<<C as Collate>::Value>,
    right: Seq<<C as Collate>::Value>,
) -> Seq<<C as Collate>::Value>
    decreases left.len(),
{
    if left.len() == 0 {
        Seq::empty()
    } else if has_equal(collator, right, left[0]) {
        unmatched(collator, left.skip(1), right)
    } else {
        seq![left[0]] + unmatched(collator, left.skip(1), right)
    }
}

/// The elements of `s` that have an `Equal` counterpart in `other`, in their
/// original relative order.
pub open spec fn matched<C: Collate>(
    collator: C,
    s: Seq<<C as Collate>::Value>,
    other: Seq<<C as Collate>::Value>,
) -> Seq<<C as Collate>::Value>
    decreases s.len(),
{
    if s.len() == 0 {
        Seq::empty()
    } else if has_equal(collator, other, s[0]) {
        seq![s[0]] + matched(collator, s.skip(1), other)
    } else {
        matched(collator, s.skip(1), other)
    }
}

/// The number of elements of `s` that compare `Equal` to `x` under
/// `collator`.
pub open spec fn count_matching<C: Collate>(
    collator: C,
    s: Seq<<C as Collate>::Value>,
    x: <C as Collate>::Value,
) -> nat
    decreases s.len(),
{
    if s.len() == 0 {
        0
    } else {
        (if collator.cmp_spec(x, s[0]) == Ordering::Equal {
            1nat
        } else {
            0nat
        }) + count_matching(collator, s.skip(1), x)
    }
}

/// A sequence holds no element equal to `x` exactly when its matching count
/// is zero.
pub proof fn lemma_count_none<C: Collate>(
    collator: C,
    s: Seq<<C as Collate>::Value>,
    x: <C as Collate>::Value,
)
    ensures
        (count_matching(collator, s, x) == 0) <==> !has_equal(collator, s, x),
    decreases s.len(),
{
    if s.len() == 0 {
        assert(!has_equal(collator, s, x));
    } else {
        lemma_count_none(collator, s.skip(1), x);
        if collator.cmp_spec(x, s[0]) == Ordering::Equal {
            assert(has_equal(collator, s, x));
        } else {
            assert(has_equal(collator, s, x) <==> has_equal(collator, s.skip(1), x)) by {
                if has_equal(collator, s, x) {
                    let j = choose|j: int|
                        0 <= j < s.len() && collator.cmp_spec(x, s[j]) == Ordering::Equal;
                    assert(j != 0);
                    assert(s.skip(1)[j - 1] == s[j]);
                    assert(collator.cmp_spec(x, s.skip(1)[j - 1]) == Ordering::Equal);
                }
                if has_equal(collator, s.skip(1), x) {
                    let j = choose|j: int|
                        0 <= j < s.skip(1).len() && collator.cmp_spec(x, s.skip(1)[j])
                            == Ordering::Equal;
                    assert(s.skip(1)[j] == s[j + 1]);
                    assert(collator.cmp_spec(x, s[j + 1]) == Ordering::Equal);
                }
            }
        }
    }
}

/// The part of a count `a` left over after `b` cancellations, floored at
/// zero.
pub open spec fn surplus(a: nat, b: nat) -> nat {
    if a >= b {
        (a - b) as nat
    } else {
        0
    }
}

/// Every item of the difference of `left` and `right` appeared in `left`.
pub proof fn lemma_diff_membership<C: Collate>(
    collator: C,
    left: Seq<<C as Collate>::Value>,
    right: Seq<<C as Collate>::Value>,
)
    ensures
        forall|k: int|
            0 <= k < diff_seq(collator, left, right).len() ==> left.contains(
                #[trigger] diff_seq(collator, left, right)[k],
            ),
    decreases left.len() + right.len(),
{
    let d = diff_seq(collator, left, right);
    if left.len() == 0 {
    } else if right.len() == 0 {
        assert forall|k: int| 0 <= k < d.len() implies left.contains(#[trigger] d[k]) by {
            assert(left[k] == d[k]);
        }
    } else {
        match collator.cmp_spec(left[0], right[0]) {
            Ordering::Equal => {
                lemma_diff_membership(collator, left.skip(1), right.skip(1));
                let rest = diff_seq(collator, left.skip(1), right.skip(1));
                assert forall|k: int| 0 <= k < d.len() implies left.contains(#[trigger] d[k]) by {
                    assert(d[k] == rest[k]);
                    crate::merge::lemma_skip_contains(left, d[k]);
                }
            },
            Ordering::Less => {
                lemma_diff_membership(collator, left.skip(1), right);
                let rest = diff_seq(collator, left.skip(1), right);
                assert forall|k: int| 0 <= k < d.len() implies left.contains(#[trigger] d[k]) by {
                    if k == 0 {
                        assert(left[0] == d[0]);
                    } else {
                        assert(d[k] == rest[k - 1]);
                        crate::merge::lemma_skip_contains(left, rest[k - 1]);
                    }
                }
            },
            Ordering::Greater => {
                lemma_diff_membership(collator, left, right.skip(1));
                let rest = diff_seq(collator, left, right.skip(1));
                assert forall|k: int| 0 <= k < d.len() implies left.contains(#[trigger] d[k]) by {
                    assert(d[k] == rest[k]);
                }
            },
        }
    }
}

/// Each item of the right side cancels at most one equal item of the left
/// side: for every value, the difference of two sorted sequences holds the
/// left side's count of equal items less the right side's, floored at zero
/// — so an item survives exactly when its equivalence class has more copies
/// on the left than on the right.
pub proof fn lemma_diff_counts<C: Collate>(
    collator: C,
    left: Seq<<C as Collate>::Value>,
    right: Seq<<C as Collate>::Value>,
    x: <C as Collate>::Value,
)
    requires
        crate::merge::sorted_seq(collator, left),
        crate::merge::sorted_seq(collator, right),
    ensures
        count_matching(collator, diff_seq(collator, left, right), x) == surplus(
            count_matching(collator, left, x),
            count_matching(collator, right, x),
        ),
    decreases left.len() + right.len(),
{
    let d = diff_seq(collator, left, right);
    if left.len() == 0 {
        assert(count_matching(collator, d, x) == 0);
    } else if right.len() == 0 {
        assert(count_matching(collator, right, x) == 0);
    } else {
        match collator.cmp_spec(left[0], right[0]) {
            Ordering::Equal => {
                crate::merge::lemma_sorted_skip(collator, left);
                crate::merge::lemma_sorted_skip(collator, right);
                lemma_diff_counts(collator, left.skip(1), right.skip(1), x);
                assert((collator.cmp_spec(x, left[0]) == Ordering::Equal) <==> (
                collator.cmp_spec(x, right[0]) == Ordering::Equal)) by {
                    if collator.cmp_spec(x, left[0]) == Ordering::Equal {
                        crate::lemma_eq_trans(collator, x, left[0], right[0]);
                    }
                    if collator.cmp_spec(x, right[0]) == Ordering::Equal {
                        crate::lemma_eq_sym(collator, left[0], right[0]);
                        crate::lemma_eq_trans(collator, x, right[0], left[0]);
                    }
                }
            },
            Ordering::Less => {
                crate::merge::lemma_sorted_skip(collator, left);
                lemma_diff_counts(collator, left.skip(1), right, x);
                let rest = diff_seq(collator, left.skip(1), right);
                assert((seq![left[0]] + rest).skip(1) =~= rest);
                assert((seq![left[0]] + rest)[0] == left[0]);
                if collator.cmp_spec(x, left[0]) == Ordering::Equal {
                    assert forall|j: int| 0 <= j < right.len()
                        implies #[trigger] collator.cmp_spec(x, right[j]) != Ordering::Equal by {
                        crate::lemma_less_le_less(collator, left[0], right[0], right[j]);
                        if collator.cmp_spec(x, right[j]) == Ordering::Equal {
                            crate::lemma_eq_sym(collator, x, left[0]);
                            crate::lemma_eq_trans(collator, left[0], x, right[j]);
                        }
                    }
                    lemma_count_none(collator, right, x);
                }
            },
            Ordering::Greater => {
                crate::merge::lemma_sorted_skip(collator, right);
                lemma_diff_counts(collator, left, right.skip(1), x);
                if collator.cmp_spec(x, right[0]) == Ordering::Equal {
                    collator.antisymmetry(left[0], right[0]);
                    assert forall|i: int| 0 <= i < left.len()
                        implies #[trigger] collator.cmp_spec(x, left[i]) != Ordering::Equal by {
                        crate::lemma_less_le_less(collator, right[0], left[0], left[i]);
                        if collator.cmp_spec(x, left[i]) == Ordering::Equal {
                            crate::lemma_eq_sym(collator, x, right[0]);
                            crate::lemma_eq_trans(collator, right[0], x, left[i]);
                        }
                    }
                    lemma_count_none(collator, left, x);
                }
            },
        }
    }
}

/// One decision of a [`Diff`]: emit a left item, drop buffered items and ask
/// again, or finish.
pub enum DiffStep<T> {
    /// The next item of the difference.
    Emit(T),
    /// Items were dropped; top up and decide again.
    Continue,
    /// The left input is exhausted and nothing is pending: the difference is
    /// complete.
    Done,
}

/// The state of a set-difference of two sorted inputs (the items of the left
/// one without an `Equal` counterpart in the right one): at most one pending
/// item per side, and a flag per side remembering its exhaustion. The caller
/// drives it: top up each side with [`Diff::feed_left`] and
/// [`Diff::feed_right`] while [`Diff::needs_left`] or [`Diff::needs_right`]
/// holds, then take the next decision from [`Diff::step`].
pub struct Diff<C: Collate> {
    /// The collator deciding which items match.
    pub collator: C,
    /// The buffered next item of the left input, if any.
    pub pending_left: Option<<C as Collate>::Value>,
    /// The buffered next item of the right input, if any.
    pub pending_right: Option<<C as Collate>::Value>,
    /// Whether the left input is exhausted.
    pub left_done: bool,
    /// Whether the right input is exhausted.
    pub right_done: bool,
}

impl<C: Collate> Diff<C> {
    /// A difference with empty pending slots and both inputs still live.
    pub fn new(collator: C) -> (s: Self)
        ensures
            s.collator == collator,
            s.pending_left is None,
            s.pending_right is None,
            !s.left_done,
            !s.right_done,
    {
        Diff {
            collator,
            pending_left: None,
            pending_right: None,
            left_done: false,
            right_done: false,
        }
    }

    /// Whether the left pending slot must be topped up before the next step.
    pub fn needs_left(&self) -> (r: bool)
        ensures
            r == (self.pending_left is None && !self.left_done),
    {
        self.pending_left.is_none() && !self.left_done
    }

    /// Whether the right pending slot must be topped up before the next step.
    pub fn needs_right(&self) -> (r: bool)
        ensures
            r == (self.pending_right is None && !self.right_done),
    {
        self.pending_right.is_none() && !self.right_done
    }

    /// Whether the difference has terminated: the left input is exhausted
    /// and nothing of it is pending (the right input's remaining tail is
    /// irrelevant).
    pub fn is_done(&self) -> (r: bool)
        ensures
            r == (self.pending_left is None && self.left_done),
    {
        self.pending_left.is_none() && self.left_done
    }

    /// Hand the left input's next item to the difference, or `None` when the
    /// left input is exhausted.
    pub fn feed_left(&mut self, item: Option<<C as Collate>::Value>)
        requires
            old(self).pending_left is None,
            !old(self).left_done,
        ensures
            final(self).collator == old(self).collator,
            final(self).pending_right == old(self).pending_right,
            final(self).right_done == old(self).right_done,
            final(self).pending_left == item,
            final(self).left_done == (item is None),
    {
        match item {
            Some(value) => self.pending_left = Some(value),
            None => self.left_done = true,
        }
    }

    /// Hand the right input's next item to the difference, or `None` when
    /// the right input is exhausted.
    pub fn feed_right(&mut self, item: Option<<C as Collate>::Value>)
        requires
            old(self).pending_right is None,
            !old(self).right_done,
        ensures
            final(self).collator == old(self).collator,
            final(self).pending_left == old(self).pending_left,
            final(self).left_done == old(self).left_done,
            final(self).pending_right == item,
            final(self).right_done == (item is None),
    {
        match item {
            Some(value) => self.pending_right = Some(value),
            None => self.right_done = true,
        }
    }

    /// Decide the next emission, once neither side needs a top-up: with both
    /// sides pending, an `Equal` pair is dropped whole and a `Greater` right
    /// item is dropped alone (it may still match a later left item), both
    /// asking for another round, while a `Less` left item is emitted; with
    /// the right side exhausted, a pending left item is emitted; with the
    /// left side exhausted and nothing pending, the difference is done.
    pub fn step(&mut self) -> (r: DiffStep<<C as Collate>::Value>)
        requires
            old(self).pending_left is Some || old(self).left_done,
            old(self).pending_right is Some || old(self).right_done,
        ensures
            final(self).collator == old(self).collator,
            final(self).left_done == old(self).left_done,
            final(self).right_done == old(self).right_done,
            match (old(self).pending_left, old(self).pending_right) {
                (Some(a), Some(b)) => match old(self).collator.cmp_spec(a, b) {
                    Ordering::Equal => r is Continue && final(self).pending_left is None
                        && final(self).pending_right is None,
                    Ordering::Less => r == DiffStep::Emit(a) && final(self).pending_left is None
                        && final(self).pending_right == old(self).pending_right,
                    Ordering::Greater => r is Continue && final(self).pending_right is None
                        && final(self).pending_left == old(self).pending_left,
                },
                (Some(a), None) => r == DiffStep::Emit(a) && final(self).pending_left is None
                    && final(self).pending_right is None,
                (None, _) => r is Done && final(self).pending_left == old(self).pending_left
                    && final(self).pending_right == old(self).pending_right,
            },
    {
        if self.pending_left.is_some() && self.pending_right.is_some() {
            let order = {
                let a = self.pending_left.as_ref().unwrap();
                let b = self.pending_right.as_ref().unwrap();
                self.collator.compare(a, b)
            };
            match order {
                Ordering::Equal => {
                    self.pending_left = None;
                    self.pending_right = None;
                    DiffStep::Continue
                },
                Ordering::Less => {
                    let value = self.pending_left.take().unwrap();
                    DiffStep::Emit(value)
                },
                Ordering::Greater => {
                    self.pending_right = None;
                    DiffStep::Continue
                },
            }
        } else if self.pending_left.is_some() {
            let value = self.pending_left.take().unwrap();
            DiffStep::Emit(value)
        } else {
            DiffStep::Done
        }
    }
}

/// Compute the difference of two sorted vectors, i.e. return the items in
/// `left` that are not in `right`: the result is exactly [`diff_seq`] of the
/// inputs. Both inputs **must** be sorted under `collator` for the
/// difference to mean membership; the equation holds either way.
#[verifier::rlimit(60)]
pub fn diff<C: Collate>(
    collator: C,
    left: Vec<<C as Collate>::Value>,
    right: Vec<<C as Collate>::Value>,
) -> (out: Vec<<C as Collate>::Value>)
    ensures
        out@ == diff_seq(collator, left@, right@),
{
    let ghost l0 = left@;
    let ghost r0 = right@;
    let mut lvec = left;
    let mut rvec = right;
    let mut state = Diff::new(collator);
    let mut out: Vec<<C as Collate>::Value> = Vec::new();
    let mut done = false;
    proof {
        assert(opt_seq(state.pending_left) + lvec@ =~= lvec@);
        assert(opt_seq(state.pending_right) + rvec@ =~= rvec@);
    }
    while !done
        invariant
            state.collator == collator,
            state.left_done ==> lvec@.len() == 0,
            state.right_done ==> rvec@.len() == 0,
            !done ==> out@ + diff_seq(
                collator,
                opt_seq(state.pending_left) + lvec@,
                opt_seq(state.pending_right) + rvec@,
            ) == diff_seq(collator, l0, r0),
            done ==> out@ == diff_seq(collator, l0, r0),
        decreases lvec@.len() + rvec@.len() + opt_len(state.pending_left) + opt_len(
            state.pending_right,
        ) + (if state.left_done {
            0int
        } else {
            1
        }) + (if state.right_done {
            0int
        } else {
            1
        }) + (if done {
            0int
        } else {
            1
        }),
    {
        let ghost pre_left = opt_seq(state.pending_left) + lvec@;
        let ghost pre_right = opt_seq(state.pending_right) + rvec@;
        if state.needs_left() {
            if lvec.len() > 0 {
                let value = lvec.remove(0);
                proof {
                    assert(opt_seq(Some(value)) + lvec@ =~= pre_left);
                }
                state.feed_left(Some(value));
            } else {
                state.feed_left(None);
            }
        }
        if state.needs_right() {
            if rvec.len() > 0 {
                let value = rvec.remove(0);
                proof {
                    assert(opt_seq(Some(value)) + rvec@ =~= pre_right);
                }
                state.feed_right(Some(value));
            } else {
                state.feed_right(None);
            }
        }
        proof {
            assert(opt_seq(state.pending_left) + lvec@ =~= pre_left);
            assert(opt_seq(state.pending_right) + rvec@ =~= pre_right);
        }
        let decision = state.step();
        proof {
            let ghost_decision = decision;
            let post_left = opt_seq(state.pending_left) + lvec@;
            let post_right = opt_seq(state.pending_right) + rvec@;
            match ghost_decision {
                DiffStep::Emit(v) => {
                    if pre_left.len() > 0 && pre_right.len() > 0 {
                        assert(collator.cmp_spec(pre_left[0], pre_right[0]) == Ordering::Less);
                        assert(pre_left.skip(1) =~= post_left);
                        assert(pre_right =~= post_right);
                    } else {
                        assert(pre_right =~= Seq::<<C as Collate>::Value>::empty());
                        assert(post_right =~= Seq::<<C as Collate>::Value>::empty());
                        assert(pre_left.skip(1) =~= post_left);
                        assert(diff_seq(collator, pre_left, pre_right) == pre_left);
                        assert(diff_seq(collator, post_left, post_right) == post_left);
                    }
                    assert(diff_seq(collator, pre_left, pre_right) == seq![v] + diff_seq(
                        collator,
                        post_left,
                        post_right,
                    ));
                },
                DiffStep::Continue => {
                    assert(pre_left.len() > 0 && pre_right.len() > 0);
                    match collator.cmp_spec(pre_left[0], pre_right[0]) {
                        Ordering::Equal => {
                            assert(pre_left.skip(1) =~= post_left);
                            assert(pre_right.skip(1) =~= post_right);
                        },
                        Ordering::Less => {
                            assert(false);
                        },
                        Ordering::Greater => {
                            assert(pre_left =~= post_left);
                            assert(pre_right.skip(1) =~= post_right);
                        },
                    }
                    assert(diff_seq(collator, pre_left, pre_right) == diff_seq(
                        collator,
                        post_left,
                        post_right,
                    ));
                },
                DiffStep::Done => {
                    assert(pre_left =~= Seq::<<C as Collate>::Value>::empty());
                    assert(diff_seq(collator, pre_left, pre_right)
                        == Seq::<<C as Collate>::Value>::empty());
                    assert(out@ + diff_seq(collator, pre_left, pre_right) =~= out@);
                },
            }
        }
        match decision {
            DiffStep::Emit(value) => out.push(value),
            DiffStep::Continue => (),
            DiffStep::Done => done = true,
        }
    }
    out
}


/// A strictly sorted sequence stays strictly sorted when its first element
/// is dropped.
pub proof fn lemma_strict_skip<C: Collate>(collator: C, s: Seq<<C as Collate>::Value>)
    requires
        crate::merge::sorted_strict(collator, s),
        s.len() > 0,
    ensures
        crate::merge::sorted_strict(collator, s.skip(1)),
{
    assert forall|i: int, j: int| 0 <= i < j < s.skip(1).len() implies #[trigger] collator.cmp_spec(
        s.skip(1)[i],
        s.skip(1)[j],
    ) == Ordering::Less by {
        assert(s.skip(1)[i] == s[i + 1]);
        assert(s.skip(1)[j] == s[j + 1]);
        assert(collator.cmp_spec(s[i + 1], s[j + 1]) == Ordering::Less);
    }
}

/// With an empty right side, nothing of the left side is matched.
proof fn lemma_unmatched_empty_right<C: Collate>(collator: C, left: Seq<<C as Collate>::Value>)
    ensures
        unmatched(collator, left, Seq::empty()) == left,
    decreases left.len(),
{
    if left.len() > 0 {
        lemma_unmatched_empty_right(collator, left.skip(1));
        assert(unmatched(collator, left, Seq::empty()) == seq![left[0]] + left.skip(1));
        assert(seq![left[0]] + left.skip(1) =~= left);
    } else {
        assert(unmatched(collator, left, Seq::empty()) =~= left);
    }
}

/// Dropping a right element that matches nothing on the left leaves the
/// difference unchanged.
proof fn lemma_unmatched_drop_right<C: Collate>(
    collator: C,
    left: Seq<<C as Collate>::Value>,
    right: Seq<<C as Collate>::Value>,
)
    requires
        right.len() > 0,
        forall|i: int|
            0 <= i < left.len() ==> #[trigger] collator.cmp_spec(left[i], right[0])
                != Ordering::Equal,
    ensures
        unmatched(collator, left, right) == unmatched(collator, left, right.skip(1)),
    decreases left.len(),
{
    if left.len() > 0 {
        assert(has_equal(collator, right, left[0]) <==> has_equal(
            collator,
            right.skip(1),
            left[0],
        )) by {
            if has_equal(collator, right, left[0]) {
                let j = choose|j: int|
                    0 <= j < right.len() && collator.cmp_spec(left[0], right[j]) == Ordering::Equal;
                assert(j != 0);
                assert(right.skip(1)[j - 1] == right[j]);
                assert(collator.cmp_spec(left[0], right.skip(1)[j - 1]) == Ordering::Equal);
            }
            if has_equal(collator, right.skip(1), left[0]) {
                let j = choose|j: int|
                    0 <= j < right.skip(1).len() && collator.cmp_spec(left[0], right.skip(1)[j])
                        == Ordering::Equal;
                assert(right.skip(1)[j] == right[j + 1]);
                assert(collator.cmp_spec(left[0], right[j + 1]) == Ordering::Equal);
            }
        }
        assert forall|i: int| 0 <= i < left.skip(1).len() implies #[trigger] collator.cmp_spec(
            left.skip(1)[i],
            right[0],
        ) != Ordering::Equal by {
            assert(left.skip(1)[i] == left[i + 1]);
            assert(collator.cmp_spec(left[i + 1], right[0]) != Ordering::Equal);
        }
        lemma_unmatched_drop_right(collator, left.skip(1), right);
    }
}

/// The difference of a strictly sorted left side and a sorted right side
/// emits exactly the elements of the left side that have no `Equal`
/// counterpart in the right side, in their original relative order.
pub proof fn lemma_diff_unmatched<C: Collate>(
    collator: C,
    left: Seq<<C as Collate>::Value>,
    right: Seq<<C as Collate>::Value>,
)
    requires
        crate::merge::sorted_strict(collator, left),
        crate::merge::sorted_seq(collator, right),
    ensures
        diff_seq(collator, left, right) == unmatched(collator, left, right),
    decreases left.len() + right.len(),
{
    if left.len() == 0 {
        assert(diff_seq(collator, left, right) =~= unmatched(collator, left, right));
    } else if right.len() == 0 {
        assert(right =~= Seq::<<C as Collate>::Value>::empty());
        lemma_unmatched_empty_right(collator, left);
    } else {
        match collator.cmp_spec(left[0], right[0]) {
            Ordering::Equal => {
                lemma_strict_skip(collator, left);
                crate::merge::lemma_sorted_skip(collator, right);
                lemma_diff_unmatched(collator, left.skip(1), right.skip(1));
                assert(has_equal(collator, right, left[0])) by {
                    assert(collator.cmp_spec(left[0], right[0]) == Ordering::Equal);
                }
                assert forall|i: int| 0 <= i < left.skip(1).len()
                    implies #[trigger] collator.cmp_spec(left.skip(1)[i], right[0])
                    != Ordering::Equal by {
                    assert(left.skip(1)[i] == left[i + 1]);
                    assert(collator.cmp_spec(left[0], left[i + 1]) == Ordering::Less);
                    if collator.cmp_spec(left[i + 1], right[0]) == Ordering::Equal {
                        crate::lemma_eq_sym(collator, left[i + 1], right[0]);
                        crate::lemma_eq_trans(collator, left[0], right[0], left[i + 1]);
                    }
                }
                lemma_unmatched_drop_right(collator, left.skip(1), right);
            },
            Ordering::Less => {
                lemma_strict_skip(collator, left);
                lemma_diff_unmatched(collator, left.skip(1), right);
                assert(!has_equal(collator, right, left[0])) by {
                    if has_equal(collator, right, left[0]) {
                        let j = choose|j: int|
                            0 <= j < right.len() && collator.cmp_spec(left[0], right[j])
                                == Ordering::Equal;
                        crate::lemma_less_le_less(collator, left[0], right[0], right[j]);
                    }
                }
            },
            Ordering::Greater => {
                crate::merge::lemma_sorted_skip(collator, right);
                lemma_diff_unmatched(collator, left, right.skip(1));
                assert forall|i: int| 0 <= i < left.len() implies #[trigger] collator.cmp_spec(
                    left[i],
                    right[0],
                ) != Ordering::Equal by {
                    if i == 0 {
                    } else {
                        collator.antisymmetry(left[0], right[0]);
                        assert(collator.cmp_spec(left[0], left[i]) == Ordering::Less);
                        crate::lemma_less_le_less(collator, right[0], left[0], left[i]);
                        collator.antisymmetry(left[i], right[0]);
                    }
                }
                lemma_unmatched_drop_right(collator, left, right);
            },
        }
    }
}

/// A strictly sorted sequence is sorted.
pub proof fn lemma_strict_implies_sorted<C: Collate>(collator: C, s: Seq<<C as Collate>::Value>)
    requires
        crate::merge::sorted_strict(collator, s),
    ensures
        crate::merge::sorted_seq(collator, s),
{
    assert forall|i: int, j: int| 0 <= i <= j < s.len() implies #[trigger] collator.cmp_spec(
        s[i],
        s[j],
    ) != Ordering::Greater by {
        if i == j {
            collator.antisymmetry(s[i], s[i]);
        }
    }
}

/// A strictly sorted sequence holds at most one element equal to any value.
pub proof fn lemma_strict_count_le_one<C: Collate>(
    collator: C,
    s: Seq<<C as Collate>::Value>,
    x: <C as Collate>::Value,
)
    requires
        crate::merge::sorted_strict(collator, s),
    ensures
        count_matching(collator, s, x) <= 1,
    decreases s.len(),
{
    if s.len() > 0 {
        lemma_strict_skip(collator, s);
        if collator.cmp_spec(x, s[0]) == Ordering::Equal {
            assert forall|j: int| 0 <= j < s.skip(1).len()
                implies #[trigger] collator.cmp_spec(x, s.skip(1)[j]) != Ordering::Equal by {
                assert(s.skip(1)[j] == s[j + 1]);
                assert(collator.cmp_spec(s[0], s[j + 1]) == Ordering::Less);
                if collator.cmp_spec(x, s[j + 1]) == Ordering::Equal {
                    crate::lemma_eq_sym(collator, x, s[0]);
                    crate::lemma_eq_trans(collator, s[0], x, s[j + 1]);
                }
            }
            lemma_count_none(collator, s.skip(1), x);
        } else {
            lemma_strict_count_le_one(collator, s.skip(1), x);
        }
    }
}

/// The unmatched restriction keeps a value's whole equivalence class when
/// the class has no counterpart on the right, and none of it otherwise.
pub proof fn lemma_unmatched_counts<C: Collate>(
    collator: C,
    left: Seq<<C as Collate>::Value>,
    right: Seq<<C as Collate>::Value>,
    x: <C as Collate>::Value,
)
    ensures
        count_matching(collator, unmatched(collator, left, right), x) == if has_equal(
            collator,
            right,
            x,
        ) {
            0nat
        } else {
            count_matching(collator, left, x)
        },
    decreases left.len(),
{
    if left.len() > 0 {
        lemma_unmatched_counts(collator, left.skip(1), right, x);
        let rest = unmatched(collator, left.skip(1), right);
        if has_equal(collator, right, left[0]) {
            if !has_equal(collator, right, x) && collator.cmp_spec(x, left[0])
                == Ordering::Equal {
                let j = choose|j: int|
                    0 <= j < right.len() && collator.cmp_spec(left[0], right[j])
                        == Ordering::Equal;
                crate::lemma_eq_trans(collator, x, left[0], right[j]);
                assert(has_equal(collator, right, x));
            }
        } else {
            assert((seq![left[0]] + rest).skip(1) =~= rest);
            assert((seq![left[0]] + rest)[0] == left[0]);
            if has_equal(collator, right, x) && collator.cmp_spec(x, left[0])
                == Ordering::Equal {
                let j = choose|j: int|
                    0 <= j < right.len() && collator.cmp_spec(x, right[j]) == Ordering::Equal;
                crate::lemma_eq_sym(collator, x, left[0]);
                crate::lemma_eq_trans(collator, left[0], x, right[j]);
                assert(has_equal(collator, right, left[0]));
            }
        }
    }
}

/// The matched restriction keeps a value's whole equivalence class when the
/// class has a counterpart in `other`, and none of it otherwise.
pub proof fn lemma_matched_counts<C: Collate>(
    collator: C,
    s: Seq<<C as Collate>::Value>,
    other: Seq<<C as Collate>::Value>,
    x: <C as Collate>::Value,
)
    ensures
        count_matching(collator, matched(collator, s, other), x) == if has_equal(
            collator,
            other,
            x,
        ) {
            count_matching(collator, s, x)
        } else {
            0nat
        },
    decreases s.len(),
{
    if s.len() > 0 {
        lemma_matched_counts(collator, s.skip(1), other, x);
        let rest = matched(collator, s.skip(1), other);
        if has_equal(collator, other, s[0]) {
            assert((seq![s[0]] + rest).skip(1) =~= rest);
            assert((seq![s[0]] + rest)[0] == s[0]);
            if !has_equal(collator, other, x) && collator.cmp_spec(x, s[0]) == Ordering::Equal {
                let j = choose|j: int|
                    0 <= j < other.len() && collator.cmp_spec(s[0], other[j]) == Ordering::Equal;
                crate::lemma_eq_trans(collator, x, s[0], other[j]);
                assert(has_equal(collator, other, x));
            }
        } else {
            if has_equal(collator, other, x) && collator.cmp_spec(x, s[0]) == Ordering::Equal {
                let j = choose|j: int|
                    0 <= j < other.len() && collator.cmp_spec(x, other[j]) == Ordering::Equal;
                crate::lemma_eq_sym(collator, x, s[0]);
                crate::lemma_eq_trans(collator, s[0], x, other[j]);
                assert(has_equal(collator, other, s[0]));
            }
        }
    }
}

/// An element of `left` with no counterpart in `right` appears in the
/// difference.
proof fn lemma_unmatched_contains<C: Collate>(
    collator: C,
    left: Seq<<C as Collate>::Value>,
    right: Seq<<C as Collate>::Value>,
    i: int,
)
    requires
        0 <= i < left.len(),
        !has_equal(collator, right, left[i]),
    ensures
        unmatched(collator, left, right).contains(left[i]),
    decreases left.len(),
{
    if i == 0 {
        assert(unmatched(collator, left, right)[0] == left[0]);
    } else {
        assert(left.skip(1)[i - 1] == left[i]);
        lemma_unmatched_contains(collator, left.skip(1), right, i - 1);
        let rest = unmatched(collator, left.skip(1), right);
        let k = choose|k: int| 0 <= k < rest.len() && rest[k] == left[i];
        if has_equal(collator, right, left[0]) {
        } else {
            assert(unmatched(collator, left, right)[k + 1] == rest[k]);
        }
    }
}

/// An element of `s` with a counterpart in `other` appears in the matched
/// restriction of `s`.
proof fn lemma_matched_contains<C: Collate>(
    collator: C,
    s: Seq<<C as Collate>::Value>,
    other: Seq<<C as Collate>::Value>,
    j: int,
)
    requires
        0 <= j < s.len(),
        has_equal(collator, other, s[j]),
    ensures
        matched(collator, s, other).contains(s[j]),
    decreases s.len(),
{
    if j == 0 {
        assert(matched(collator, s, other)[0] == s[0]);
    } else {
        assert(s.skip(1)[j - 1] == s[j]);
        lemma_matched_contains(collator, s.skip(1), other, j - 1);
        let rest = matched(collator, s.skip(1), other);
        let k = choose|k: int| 0 <= k < rest.len() && rest[k] == s[j];
        if has_equal(collator, other, s[0]) {
            assert(matched(collator, s, other)[k + 1] == rest[k]);
        } else {
        }
    }
}

/// Every item of the matched restriction of `s` appeared in `s`.
proof fn lemma_matched_membership<C: Collate>(
    collator: C,
    s: Seq<<C as Collate>::Value>,
    other: Seq<<C as Collate>::Value>,
)
    ensures
        forall|k: int|
            0 <= k < matched(collator, s, other).len() ==> s.contains(
                #[trigger] matched(collator, s, other)[k],
            ),
    decreases s.len(),
{
    let m = matched(collator, s, other);
    if s.len() > 0 {
        lemma_matched_membership(collator, s.skip(1), other);
        let rest = matched(collator, s.skip(1), other);
        if has_equal(collator, other, s[0]) {
            assert forall|k: int| 0 <= k < m.len() implies s.contains(#[trigger] m[k]) by {
                if k == 0 {
                    assert(s[0] == m[0]);
                } else {
                    assert(m[k] == rest[k - 1]);
                    crate::merge::lemma_skip_contains(s, rest[k - 1]);
                }
            }
        } else {
            assert forall|k: int| 0 <= k < m.len() implies s.contains(#[trigger] m[k]) by {
                assert(m[k] == rest[k]);
                crate::merge::lemma_skip_contains(s, rest[k]);
            }
        }
    }
}

/// The matched restriction of a sorted sequence is sorted.
pub proof fn lemma_matched_sorted<C: Collate>(
    collator: C,
    s: Seq<<C as Collate>::Value>,
    other: Seq<<C as Collate>::Value>,
)
    requires
        crate::merge::sorted_seq(collator, s),
    ensures
        crate::merge::sorted_seq(collator, matched(collator, s, other)),
    decreases s.len(),
{
    let m = matched(collator, s, other);
    if s.len() > 0 {
        crate::merge::lemma_sorted_skip(collator, s);
        lemma_matched_sorted(collator, s.skip(1), other);
        lemma_matched_membership(collator, s.skip(1), other);
        let rest = matched(collator, s.skip(1), other);
        if has_equal(collator, other, s[0]) {
            assert forall|k: int| 1 <= k < m.len() implies collator.cmp_spec(
                s[0],
                #[trigger] m[k],
            ) != Ordering::Greater by {
                assert(m[k] == rest[k - 1]);
                let i = choose|i: int| 0 <= i < s.skip(1).len() && s.skip(1)[i] == rest[k - 1];
                assert(s[i + 1] == rest[k - 1]);
                assert(collator.cmp_spec(s[0], s[i + 1]) != Ordering::Greater);
            }
            assert forall|i: int, j: int| 0 <= i <= j < m.len()
                implies #[trigger] collator.cmp_spec(m[i], m[j]) != Ordering::Greater by {
                if i == 0 {
                    if j == 0 {
                        collator.antisymmetry(m[0], m[0]);
                    } else {
                        assert(collator.cmp_spec(s[0], m[j]) != Ordering::Greater);
                    }
                } else {
                    assert(m[i] == rest[i - 1]);
                    assert(m[j] == rest[j - 1]);
                    assert(collator.cmp_spec(rest[i - 1], rest[j - 1]) != Ordering::Greater);
                }
            }
        }
    }
}

/// The difference of two sorted sequences is sorted.
pub proof fn lemma_diff_sorted<C: Collate>(
    collator: C,
    left: Seq<<C as Collate>::Value>,
    right: Seq<<C as Collate>::Value>,
)
    requires
        crate::merge::sorted_seq(collator, left),
        crate::merge::sorted_seq(collator, right),
    ensures
        crate::merge::sorted_seq(collator, diff_seq(collator, left, right)),
    decreases left.len() + right.len(),
{
    let d = diff_seq(collator, left, right);
    if left.len() == 0 || right.len() == 0 {
    } else {
        match collator.cmp_spec(left[0], right[0]) {
            Ordering::Equal => {
                crate::merge::lemma_sorted_skip(collator, left);
                crate::merge::lemma_sorted_skip(collator, right);
                lemma_diff_sorted(collator, left.skip(1), right.skip(1));
            },
            Ordering::Less => {
                crate::merge::lemma_sorted_skip(collator, left);
                lemma_diff_sorted(collator, left.skip(1), right);
                lemma_diff_membership(collator, left.skip(1), right);
                let rest = diff_seq(collator, left.skip(1), right);
                assert forall|k: int| 1 <= k < d.len() implies collator.cmp_spec(
                    left[0],
                    #[trigger] d[k],
                ) != Ordering::Greater by {
                    assert(d[k] == rest[k - 1]);
                    let i = choose|i: int|
                        0 <= i < left.skip(1).len() && left.skip(1)[i] == rest[k - 1];
                    assert(left[i + 1] == rest[k - 1]);
                    assert(collator.cmp_spec(left[0], left[i + 1]) != Ordering::Greater);
                }
                assert forall|i: int, j: int| 0 <= i <= j < d.len()
                    implies #[trigger] collator.cmp_spec(d[i], d[j]) != Ordering::Greater by {
                    if i == 0 {
                        if j == 0 {
                            collator.antisymmetry(d[0], d[0]);
                        } else {
                            assert(collator.cmp_spec(left[0], d[j]) != Ordering::Greater);
                        }
                    } else {
                        assert(d[i] == rest[i - 1]);
                        assert(d[j] == rest[j - 1]);
                        assert(collator.cmp_spec(rest[i - 1], rest[j - 1]) != Ordering::Greater);
                    }
                }
            },
            Ordering::Greater => {
                crate::merge::lemma_sorted_skip(collator, right);
                lemma_diff_sorted(collator, left, right.skip(1));
            },
        }
    }
}

/// Merging two sorted sequences keeps, for every value, the larger of the
/// two sides' counts of equal items: an equal pair is emitted once.
pub proof fn lemma_merge_counts<C: Collate>(
    collator: C,
    left: Seq<<C as Collate>::Value>,
    right: Seq<<C as Collate>::Value>,
    x: <C as Collate>::Value,
)
    requires
        crate::merge::sorted_seq(collator, left),
        crate::merge::sorted_seq(collator, right),
    ensures
        count_matching(collator, crate::merge::merge_seq(collator, left, right), x)
            == if count_matching(collator, left, x) >= count_matching(collator, right, x) {
            count_matching(collator, left, x)
        } else {
            count_matching(collator, right, x)
        },
    decreases left.len() + right.len(),
{
    if left.len() == 0 || right.len() == 0 {
    } else {
        match collator.cmp_spec(left[0], right[0]) {
            Ordering::Equal => {
                crate::merge::lemma_sorted_skip(collator, left);
                crate::merge::lemma_sorted_skip(collator, right);
                lemma_merge_counts(collator, left.skip(1), right.skip(1), x);
                let rest = crate::merge::merge_seq(collator, left.skip(1), right.skip(1));
                assert((seq![left[0]] + rest).skip(1) =~= rest);
                assert((seq![left[0]] + rest)[0] == left[0]);
                assert((collator.cmp_spec(x, left[0]) == Ordering::Equal) <==> (
                collator.cmp_spec(x, right[0]) == Ordering::Equal)) by {
                    if collator.cmp_spec(x, left[0]) == Ordering::Equal {
                        crate::lemma_eq_trans(collator, x, left[0], right[0]);
                    }
                    if collator.cmp_spec(x, right[0]) == Ordering::Equal {
                        crate::lemma_eq_sym(collator, left[0], right[0]);
                        crate::lemma_eq_trans(collator, x, right[0], left[0]);
                    }
                }
            },
            Ordering::Less => {
                crate::merge::lemma_sorted_skip(collator, left);
                lemma_merge_counts(collator, left.skip(1), right, x);
                let rest = crate::merge::merge_seq(collator, left.skip(1), right);
                assert((seq![left[0]] + rest).skip(1) =~= rest);
                assert((seq![left[0]] + rest)[0] == left[0]);
                if collator.cmp_spec(x, left[0]) == Ordering::Equal {
                    assert forall|j: int| 0 <= j < right.len()
                        implies #[trigger] collator.cmp_spec(x, right[j]) != Ordering::Equal by {
                        crate::lemma_less_le_less(collator, left[0], right[0], right[j]);
                        if collator.cmp_spec(x, right[j]) == Ordering::Equal {
                            crate::lemma_eq_sym(collator, x, left[0]);
                            crate::lemma_eq_trans(collator, left[0], x, right[j]);
                        }
                    }
                    lemma_count_none(collator, right, x);
                }
            },
            Ordering::Greater => {
                crate::merge::lemma_sorted_skip(collator, right);
                lemma_merge_counts(collator, left, right.skip(1), x);
                let rest = crate::merge::merge_seq(collator, left, right.skip(1));
                assert((seq![right[0]] + rest).skip(1) =~= rest);
                assert((seq![right[0]] + rest)[0] == right[0]);
                if collator.cmp_spec(x, right[0]) == Ordering::Equal {
                    collator.antisymmetry(left[0], right[0]);
                    assert forall|i: int| 0 <= i < left.len()
                        implies #[trigger] collator.cmp_spec(x, left[i]) != Ordering::Equal by {
                        crate::lemma_less_le_less(collator, right[0], left[0], left[i]);
                        if collator.cmp_spec(x, left[i]) == Ordering::Equal {
                            crate::lemma_eq_sym(collator, x, right[0]);
                            crate::lemma_eq_trans(collator, right[0], x, left[i]);
                        }
                    }
                    lemma_count_none(collator, left, x);
                }
            },
        }
    }
}

/// Round trip: merging the difference of `left` and `right` back with the
/// restriction of `right` to elements matched in `left` reconstructs a
/// cover of `left` — every element of `left` has an `Equal` counterpart in
/// the merged result.
pub proof fn lemma_diff_merge_round_trip<C: Collate>(
    collator: C,
    left: Seq<<C as Collate>::Value>,
    right: Seq<<C as Collate>::Value>,
)
    requires
        crate::merge::sorted_strict(collator, left),
        crate::merge::sorted_seq(collator, right),
    ensures
        crate::merge::covered(
            collator,
            left,
            crate::merge::merge_seq(
                collator,
                diff_seq(collator, left, right),
                matched(collator, right, left),
            ),
        ),
{
    let d = diff_seq(collator, left, right);
    let m = matched(collator, right, left);
    let out = crate::merge::merge_seq(collator, d, m);
    crate::merge::lemma_merge_covers(collator, d, m);
    lemma_diff_unmatched(collator, left, right);
    assert forall|i: int| 0 <= i < left.len() implies exists|k: int|
        0 <= k < out.len() && collator.cmp_spec(out[k], #[trigger] left[i])
            == Ordering::Equal by {
        if has_equal(collator, right, left[i]) {
            let j = choose|j: int|
                0 <= j < right.len() && collator.cmp_spec(left[i], right[j]) == Ordering::Equal;
            crate::lemma_eq_sym(collator, left[i], right[j]);
            assert(has_equal(collator, left, right[j])) by {
                assert(collator.cmp_spec(right[j], left[i]) == Ordering::Equal);
            }
            lemma_matched_contains(collator, right, left, j);
            let t = choose|t: int| 0 <= t < m.len() && m[t] == right[j];
            let k = choose|k: int|
                0 <= k < out.len() && collator.cmp_spec(out[k], m[t]) == Ordering::Equal;
            crate::lemma_eq_trans(collator, out[k], right[j], left[i]);
            assert(collator.cmp_spec(out[k], left[i]) == Ordering::Equal);
        } else {
            lemma_unmatched_contains(collator, left, right, i);
            let t = choose|t: int| 0 <= t < d.len() && d[t] == left[i];
            let k = choose|k: int|
                0 <= k < out.len() && collator.cmp_spec(out[k], d[t]) == Ordering::Equal;
            assert(collator.cmp_spec(out[k], left[i]) == Ordering::Equal);
        }
    }
}


/// Round trip, exactly: with both sides strictly sorted, merging the
/// difference of `left` and `right` back with the restriction of `right` to
/// elements matched in `left` reconstructs `left` up to tie representatives
/// — for each element of `left` the merged result holds exactly one element
/// comparing `Equal` to it.
pub proof fn lemma_diff_merge_round_trip_exact<C: Collate>(
    collator: C,
    left: Seq<<C as Collate>::Value>,
    right: Seq<<C as Collate>::Value>,
)
    requires
        crate::merge::sorted_strict(collator, left),
        crate::merge::sorted_strict(collator, right),
    ensures
        forall|i: int|
            0 <= i < left.len() ==> count_matching(
                collator,
                crate::merge::merge_seq(
                    collator,
                    diff_seq(collator, left, right),
                    matched(collator, right, left),
                ),
                #[trigger] left[i],
            ) == 1,
{
    let d = diff_seq(collator, left, right);
    let rc = matched(collator, right, left);
    let out = crate::merge::merge_seq(collator, d, rc);
    lemma_strict_implies_sorted(collator, left);
    lemma_strict_implies_sorted(collator, right);
    lemma_diff_sorted(collator, left, right);
    lemma_matched_sorted(collator, right, left);
    lemma_diff_unmatched(collator, left, right);
    assert forall|i: int| 0 <= i < left.len() implies count_matching(
        collator,
        crate::merge::merge_seq(
            collator,
            diff_seq(collator, left, right),
            matched(collator, right, left),
        ),
        #[trigger] left[i],
    ) == 1 by {
        let x = left[i];
        collator.antisymmetry(x, x);
        assert(collator.cmp_spec(x, left[i]) == Ordering::Equal);
        assert(has_equal(collator, left, x));
        lemma_merge_counts(collator, d, rc, x);
        lemma_unmatched_counts(collator, left, right, x);
        lemma_matched_counts(collator, right, left, x);
        lemma_count_none(collator, left, x);
        lemma_count_none(collator, right, x);
        lemma_strict_count_le_one(collator, left, x);
        lemma_strict_count_le_one(collator, right, x);
        if has_equal(collator, right, x) {
            assert(count_matching(collator, d, x) == 0);
            assert(count_matching(collator, rc, x) == count_matching(collator, right, x));
            assert(count_matching(collator, right, x) == 1);
        } else {
            assert(count_matching(collator, d, x) == count_matching(collator, left, x));
            assert(count_matching(collator, left, x) == 1);
            assert(count_matching(collator, rc, x) == 0);
        }
    }
}

} // verus!
