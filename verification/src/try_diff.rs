//! Failure-propagating set-difference: the inputs are sorted sequences whose
//! items may be failures, and the first failure pulled from either side
//! aborts the difference and surfaces verbatim.

use vstd::prelude::*;

use core::cmp::Ordering;

use crate::diff::{Diff, DiffStep};
use crate::merge::{opt_len, opt_seq};
use crate::Collate;

verus! {

/// One round of the fallible difference of `left` and `right` under
/// `collator`, with the pending slots `pl` and `pr`: each empty slot is
/// topped up from its side (left first), a failure pulled in ends the output
/// at that failure, and otherwise the decision follows
/// [`crate::diff::diff_seq`] — an `Equal` pair or a `Greater` right item is
/// dropped, a `Less` left item is emitted, and an exhausted left side ends
/// the output.
pub open spec fn try_diff_rec<C: Collate, E>(
    collator: C,
    pl: Option<<C as Collate>::Value>,
    pr: Option<<C as Collate>::Value>,
    left: Seq<Result<<C as Collate>::Value, E>>,
    right: Seq<Result<<C as Collate>::Value, E>>,
) -> Seq<Result<<C as Collate>::Value, E>>
    decreases 2 * left.len() + 2 * right.len() + opt_len(pl) + opt_len(pr),
{
    if pl is None && left.len() > 0 {
        match left[0] {
            Result::Err(e) => seq![Result::Err(e)],
            Result::Ok(v) => try_diff_rec(collator, Some(v), pr, left.skip(1), right),
        }
    } else if pr is None && right.len() > 0 {
        match right[0] {
            Result::Err(e) => seq![Result::Err(e)],
            Result::Ok(v) => try_diff_rec(collator, pl, Some(v), left, right.skip(1)),
        }
    } else {
        match (pl, pr) {
            (Some(a), Some(b)) => match collator.cmp_spec(a, b) {
                Ordering::Equal => try_diff_rec(collator, None, None, left, right),
                Ordering::Less => seq![Result::Ok(a)] + try_diff_rec(
                    collator,
                    None,
                    pr,
                    left,
                    right,
                ),
                Ordering::Greater => try_diff_rec(collator, pl, None, left, right),
            },
            (Some(a), None) => seq![Result::Ok(a)] + try_diff_rec(collator, None, None, left, right),
            (None, _) => Seq::empty(),
        }
    }
}

/// The fallible difference of `left` and `right` under `collator`, started
/// with empty pending slots.
pub open spec fn try_diff_seq<C: Collate, E>(
    collator: C,
    left: Seq<Result<<C as Collate>::Value, E>>,
    right: Seq<Result<<C as Collate>::Value, E>>,
) -> Seq<Result<<C as Collate>::Value, E>> {
    try_diff_rec(collator, None, None, left, right)
}

/// Compute the difference of two sorted vectors of fallible items, i.e.
/// return the items in `left` that are not in `right`: the result is exactly
/// [`try_diff_seq`] of the inputs — the differenced items up to the first
/// failure pulled from either side, then that failure, then nothing further.
/// Both inputs **must** be sorted under `collator` (failures aside) for the
/// difference to mean membership; the equation holds either way.
#[verifier::rlimit(60)]
pub fn try_diff<C: Collate, E>(
    collator: C,
    left: Vec<Result<<C as Collate>::Value, E>>,
    right: Vec<Result<<C as Collate>::Value, E>>,
) -> (out: Vec<Result<<C as Collate>::Value, E>>)
    ensures
        out@ == try_diff_seq(collator, left@, right@),
{
    let ghost l0 = left@;
    let ghost r0 = right@;
    let mut lvec = left;
    let mut rvec = right;
    let mut state = Diff::new(collator);
    let mut out: Vec<Result<<C as Collate>::Value, E>> = Vec::new();
    let mut done = false;
    let mut failed = false;
    while !done && !failed
        invariant
            state.collator == collator,
            state.left_done ==> lvec@.len() == 0,
            state.right_done ==> rvec@.len() == 0,
            (!done && !failed) ==> out@ + try_diff_rec(
                collator,
                state.pending_left,
                state.pending_right,
                lvec@,
                rvec@,
            ) == try_diff_seq(collator, l0, r0),
            (done || failed) ==> out@ == try_diff_seq(collator, l0, r0),
        decreases 2 * lvec@.len() + 2 * rvec@.len() + opt_len(state.pending_left) + opt_len(
            state.pending_right,
        ) + (if state.left_done {
            0int
        } else {
            1
        }) + (if state.right_done {
            0int
        } else {
            1
        }) + (if done {
            0int
        } else {
            1
        }),
    {
        if state.needs_left() {
            if lvec.len() > 0 {
                let ghost lpre = lvec@;
                match lvec.remove(0) {
                    Result::Ok(value) => {
                        proof {
                            assert(lpre.remove(0) =~= lpre.skip(1));
                            assert(try_diff_rec(
                                collator,
                                state.pending_left,
                                state.pending_right,
                                lpre,
                                rvec@,
                            ) == try_diff_rec(
                                collator,
                                Some(value),
                                state.pending_right,
                                lpre.skip(1),
                                rvec@,
                            ));
                        }
                        state.feed_left(Some(value));
                    },
                    Result::Err(cause) => {
                        proof {
                            assert(try_diff_rec(
                                collator,
                                state.pending_left,
                                state.pending_right,
                                lpre,
                                rvec@,
                            ) =~= seq![Result::<<C as Collate>::Value, E>::Err(cause)]);
                        }
                        out.push(Result::Err(cause));
                        failed = true;
                    },
                }
            } else {
                state.feed_left(None);
            }
        }
        if !failed && state.needs_right() {
            if rvec.len() > 0 {
                let ghost rpre = rvec@;
                match rvec.remove(0) {
                    Result::Ok(value) => {
                        proof {
                            assert(rpre.remove(0) =~= rpre.skip(1));
                            assert(try_diff_rec(
                                collator,
                                state.pending_left,
                                state.pending_right,
                                lvec@,
                                rpre,
                            ) == try_diff_rec(
                                collator,
                                state.pending_left,
                                Some(value),
                                lvec@,
                                rpre.skip(1),
                            ));
                        }
                        state.feed_right(Some(value));
                    },
                    Result::Err(cause) => {
                        proof {
                            assert(try_diff_rec(
                                collator,
                                state.pending_left,
                                state.pending_right,
                                lvec@,
                                rpre,
                            ) =~= seq![Result::<<C as Collate>::Value, E>::Err(cause)]);
                        }
                        out.push(Result::Err(cause));
                        failed = true;
                    },
                }
            } else {
                state.feed_right(None);
            }
        }
        if !failed {
            let ghost pre = state;
            let ghost out_pre = out@;
            let decision = state.step();
            proof {
                let ghost_decision = decision;
                match ghost_decision {
                    DiffStep::Emit(v) => {
                        assert(try_diff_rec(collator, pre.pending_left, pre.pending_right, lvec@, rvec@)
                            == seq![Result::<<C as Collate>::Value, E>::Ok(v)] + try_diff_rec(
                            collator,
                            state.pending_left,
                            state.pending_right,
                            lvec@,
                            rvec@,
                        ));
                        assert(out_pre + (seq![Result::<<C as Collate>::Value, E>::Ok(v)]
                            + try_diff_rec(
                            collator,
                            state.pending_left,
                            state.pending_right,
                            lvec@,
                            rvec@,
                        )) =~= out_pre.push(Result::Ok(v)) + try_diff_rec(
                            collator,
                            state.pending_left,
                            state.pending_right,
                            lvec@,
                            rvec@,
                        ));
                    },
                    DiffStep::Continue => {
                        assert(try_diff_rec(collator, pre.pending_left, pre.pending_right, lvec@, rvec@)
                            == try_diff_rec(
                            collator,
                            state.pending_left,
                            state.pending_right,
                            lvec@,
                            rvec@,
                        ));
                    },
                    DiffStep::Done => {
                        assert(try_diff_rec(collator, pre.pending_left, pre.pending_right, lvec@, rvec@)
                            =~= Seq::<Result<<C as Collate>::Value, E>>::empty());
                        assert(out_pre + Seq::<Result<<C as Collate>::Value, E>>::empty()
                            =~= out_pre);
                    },
                }
            }
            match decision {
                DiffStep::Emit(value) => out.push(Result::Ok(value)),
                DiffStep::Continue => (),
                DiffStep::Done => {
                    done = true;
                },
            }
        }
    }
    out
}


proof fn lemma_try_diff_rec_ok<C: Collate, E>(
    collator: C,
    pl: Option<<C as Collate>::Value>,
    pr: Option<<C as Collate>::Value>,
    left: Seq<<C as Collate>::Value>,
    right: Seq<<C as Collate>::Value>,
)
    ensures
        try_diff_rec(
            collator,
            pl,
            pr,
            crate::try_merge::oks::<_, E>(left),
            crate::try_merge::oks::<_, E>(right),
        ) == crate::try_merge::oks::<_, E>(
            crate::diff::diff_seq(collator, opt_seq(pl) + left, opt_seq(pr) + right),
        ),
    decreases 2 * left.len() + 2 * right.len() + opt_len(pl) + opt_len(pr),
{
    let lc = opt_seq(pl) + left;
    let rc = opt_seq(pr) + right;
    if pl is None && left.len() > 0 {
        assert(crate::try_merge::oks::<_, E>(left)[0] == Result::<
            <C as Collate>::Value,
            E,
        >::Ok(left[0]));
        crate::try_merge::lemma_oks_skip::<_, E>(left);
        lemma_try_diff_rec_ok::<C, E>(collator, Some(left[0]), pr, left.skip(1), right);
        assert(opt_seq(Some(left[0])) + left.skip(1) =~= lc);
    } else if pr is None && right.len() > 0 {
        assert(crate::try_merge::oks::<_, E>(right)[0] == Result::<
            <C as Collate>::Value,
            E,
        >::Ok(right[0]));
        crate::try_merge::lemma_oks_skip::<_, E>(right);
        lemma_try_diff_rec_ok::<C, E>(collator, pl, Some(right[0]), left, right.skip(1));
        assert(opt_seq(Some(right[0])) + right.skip(1) =~= rc);
    } else {
        match (pl, pr) {
            (Some(a), Some(b)) => {
                assert(lc[0] == a);
                assert(rc[0] == b);
                assert(lc.skip(1) =~= left);
                assert(rc.skip(1) =~= right);
                match collator.cmp_spec(a, b) {
                    Ordering::Equal => {
                        lemma_try_diff_rec_ok::<C, E>(collator, None, None, left, right);
                        assert(opt_seq(Option::<<C as Collate>::Value>::None) + left =~= left);
                        assert(opt_seq(Option::<<C as Collate>::Value>::None) + right =~= right);
                        assert(crate::diff::diff_seq(collator, lc, rc) == crate::diff::diff_seq(
                            collator,
                            left,
                            right,
                        ));
                    },
                    Ordering::Less => {
                        lemma_try_diff_rec_ok::<C, E>(collator, None, pr, left, right);
                        assert(opt_seq(Option::<<C as Collate>::Value>::None) + left =~= left);
                        assert(crate::diff::diff_seq(collator, lc, rc) == seq![a]
                            + crate::diff::diff_seq(collator, left, rc));
                        assert(crate::try_merge::oks::<_, E>(
                            seq![a] + crate::diff::diff_seq(collator, left, rc),
                        ) =~= seq![Result::<<C as Collate>::Value, E>::Ok(a)]
                            + crate::try_merge::oks::<_, E>(
                            crate::diff::diff_seq(collator, left, rc),
                        ));
                    },
                    Ordering::Greater => {
                        lemma_try_diff_rec_ok::<C, E>(collator, pl, None, left, right);
                        assert(opt_seq(Option::<<C as Collate>::Value>::None) + right =~= right);
                        assert(crate::diff::diff_seq(collator, lc, rc) == crate::diff::diff_seq(
                            collator,
                            lc,
                            right,
                        ));
                    },
                }
            },
            (Some(a), None) => {
                assert(right =~= Seq::<<C as Collate>::Value>::empty());
                assert(rc =~= Seq::<<C as Collate>::Value>::empty());
                lemma_try_diff_rec_ok::<C, E>(collator, None, None, left, right);
                assert(opt_seq(Option::<<C as Collate>::Value>::None) + left =~= left);
                assert(opt_seq(Option::<<C as Collate>::Value>::None) + right =~= right);
                assert(crate::diff::diff_seq(collator, lc, rc) == lc);
                assert(crate::diff::diff_seq(collator, left, right) =~= left);
                assert(lc =~= seq![a] + left);
                assert(crate::try_merge::oks::<_, E>(seq![a] + left) =~= seq![
                    Result::<<C as Collate>::Value, E>::Ok(a),
                ] + crate::try_merge::oks::<_, E>(left));
            },
            (None, _) => {
                assert(left =~= Seq::<<C as Collate>::Value>::empty());
                assert(lc =~= Seq::<<C as Collate>::Value>::empty());
                assert(crate::diff::diff_seq(collator, lc, rc)
                    =~= Seq::<<C as Collate>::Value>::empty());
                assert(crate::try_merge::oks::<_, E>(crate::diff::diff_seq(collator, lc, rc))
                    =~= Seq::<Result<<C as Collate>::Value, E>>::empty());
            },
        }
    }
}

/// On inputs without failures, the fallible difference is the plain
/// difference with every item wrapped as a success.
pub proof fn lemma_try_diff_all_ok<C: Collate, E>(
    collator: C,
    left: Seq<<C as Collate>::Value>,
    right: Seq<<C as Collate>::Value>,
)
    ensures
        try_diff_seq(
            collator,
            crate::try_merge::oks::<_, E>(left),
            crate::try_merge::oks::<_, E>(right),
        ) == crate::try_merge::oks::<_, E>(crate::diff::diff_seq(collator, left, right)),
{
    lemma_try_diff_rec_ok::<C, E>(collator, None, None, left, right);
    assert(opt_seq(Option::<<C as Collate>::Value>::None) + left =~= left);
    assert(opt_seq(Option::<<C as Collate>::Value>::None) + right =~= right);
}

} // verus!
