//! Composite-key bisection: lexicographic comparison of rows (tuples of
//! ordered values) and binary search for the boundaries of a sorted sequence
//! of rows matching a key or a [`Range`].

use vstd::prelude::*;

use core::cmp::Ordering;

use crate::overlap::Bound;
use crate::range::{spec_on_or_after_start, spec_on_or_before_end, Range};
use crate::Collate;

verus! {

/// Lexicographic comparison of two rows under `collator`: the first
/// differing component decides, and a strict prefix is `Less` than any row
/// extending it.
pub open spec fn cmp_rows<C: Collate>(
    collator: C,
    left: Seq<<C as Collate>::Value>,
    right: Seq<<C as Collate>::Value>,
) -> Ordering
    decreases left.len(),
{
    if left.len() == 0 && right.len() == 0 {
        Ordering::Equal
    } else if left.len() == 0 {
        Ordering::Less
    } else if right.len() == 0 {
        Ordering::Greater
    } else {
        match collator.cmp_spec(left[0], right[0]) {
            Ordering::Equal => cmp_rows(collator, left.skip(1), right.skip(1)),
            o => o,
        }
    }
}

/// Comparison of a row against a key, restricted to the key's length: the
/// first differing component among the leading `key.len()` ones decides, a
/// row shorter than the key is `Less`, and every row matches an empty key.
pub open spec fn cmp_row_key<C: Collate>(
    collator: C,
    row: Seq<<C as Collate>::Value>,
    key: Seq<<C as Collate>::Value>,
) -> Ordering
    decreases key.len(),
{
    if key.len() == 0 {
        Ordering::Equal
    } else if row.len() == 0 {
        Ordering::Less
    } else {
        match collator.cmp_spec(row[0], key[0]) {
            Ordering::Equal => cmp_row_key(collator, row.skip(1), key.skip(1)),
            o => o,
        }
    }
}

/// Comparison of a row against a [`Range`] with the given components: the
/// row's leading components are compared against the prefix (a row shorter
/// than the prefix is `Less`); on an exact prefix match the row's next
/// component is compared against the `(start, end)` bounds — before the
/// start is `Less`, past the end is `Greater`, else `Equal`. A range with an
/// empty prefix and no bounds compares `Equal` to every row.
pub open spec fn cmp_row_range<C: Collate>(
    collator: C,
    row: Seq<<C as Collate>::Value>,
    prefix: Seq<<C as Collate>::Value>,
    start: Bound<<C as Collate>::Value>,
    end: Bound<<C as Collate>::Value>,
) -> Ordering
    decreases prefix.len(),
{
    if prefix.len() > 0 {
        if row.len() == 0 {
            Ordering::Less
        } else {
            match collator.cmp_spec(row[0], prefix[0]) {
                Ordering::Equal => cmp_row_range(
                    collator,
                    row.skip(1),
                    prefix.skip(1),
                    start,
                    end,
                ),
                o => o,
            }
        }
    } else {
        if start is Unbounded && end is Unbounded {
            Ordering::Equal
        } else if row.len() == 0 {
            Ordering::Less
        } else if !spec_on_or_after_start(collator, start, row[0]) {
            Ordering::Less
        } else if !spec_on_or_before_end(collator, end, row[0]) {
            Ordering::Greater
        } else {
            Ordering::Equal
        }
    }
}

/// Whether `rows` is sorted ascending under [`cmp_rows`], between every pair
/// of positions.
pub open spec fn spec_sorted<C: Collate>(collator: C, rows: Seq<Vec<<C as Collate>::Value>>) -> bool {
    forall|i: int, j: int|
        0 <= i <= j < rows.len() ==> #[trigger] cmp_rows(collator, rows[i]@, rows[j]@)
            != Ordering::Greater
}

/// Whether each row of `rows` compares at most equal to the next one.
pub open spec fn spec_ascending<C: Collate>(
    collator: C,
    rows: Seq<Vec<<C as Collate>::Value>>,
) -> bool {
    forall|i: int|
        0 <= i < rows.len() - 1 ==> #[trigger] cmp_rows(collator, rows[i]@, rows[i + 1]@)
            != Ordering::Greater
}

/// Whether each row of `rows` compares at least equal to the next one.
pub open spec fn spec_descending<C: Collate>(
    collator: C,
    rows: Seq<Vec<<C as Collate>::Value>>,
) -> bool {
    forall|i: int|
        0 <= i < rows.len() - 1 ==> #[trigger] cmp_rows(collator, rows[i]@, rows[i + 1]@)
            != Ordering::Less
}

/// Compare two rows lexicographically under `collator`: the first differing
/// component decides, and a strict prefix is `Less` than any row extending
/// it.
pub fn compare_row<C: Collate>(
    collator: &C,
    left: &Vec<<C as Collate>::Value>,
    right: &Vec<<C as Collate>::Value>,
) -> (r: Ordering)
    ensures
        r == cmp_rows(*collator, left@, right@),
{
    let mut i: usize = 0;
    proof {
        assert(left@.skip(0) =~= left@);
        assert(right@.skip(0) =~= right@);
    }
    while i < left.len() && i < right.len()
        invariant
            0 <= i <= left@.len(),
            0 <= i <= right@.len(),
            cmp_rows(*collator, left@, right@) == cmp_rows(
                *collator,
                left@.skip(i as int),
                right@.skip(i as int),
            ),
        decreases left@.len() - i,
    {
        match collator.compare(&left[i], &right[i]) {
            Ordering::Equal => {
                proof {
                    assert(left@.skip(i as int).skip(1) =~= left@.skip(i + 1));
                    assert(right@.skip(i as int).skip(1) =~= right@.skip(i + 1));
                }
                i = i + 1;
            },
            o => {
                return o;
            },
        }
    }
    if left.len() == right.len() {
        Ordering::Equal
    } else if i == left.len() {
        Ordering::Less
    } else {
        Ordering::Greater
    }
}

/// Verify that `rows` is monotonic under [`cmp_rows`]: either every row
/// compares at most equal to the next (ascending, ties allowed) or every row
/// compares at least equal to the next (descending, ties allowed).
pub fn is_sorted<C: Collate>(collator: &C, rows: &Vec<Vec<<C as Collate>::Value>>) -> (r: bool)
    ensures
        r == (spec_ascending(*collator, rows@) || spec_descending(*collator, rows@)),
{
    let mut seen_less = false;
    let mut seen_greater = false;
    let mut i: usize = 1;
    while i < rows.len()
        invariant
            1 <= i,
            i <= rows@.len() || i == 1,
            seen_greater <==> exists|j: int|
                0 <= j < i - 1 && #[trigger] cmp_rows(*collator, rows@[j]@, rows@[j + 1]@)
                    == Ordering::Greater,
            seen_less <==> exists|j: int|
                0 <= j < i - 1 && #[trigger] cmp_rows(*collator, rows@[j]@, rows@[j + 1]@)
                    == Ordering::Less,
        decreases rows@.len() - i,
    {
        match compare_row(collator, &rows[i - 1], &rows[i]) {
            Ordering::Greater => {
                proof {
                    assert(cmp_rows(*collator, rows@[i - 1]@, rows@[i - 1 + 1]@)
                        == Ordering::Greater);
                }
                seen_greater = true;
            },
            Ordering::Less => {
                proof {
                    assert(cmp_rows(*collator, rows@[i - 1]@, rows@[i - 1 + 1]@)
                        == Ordering::Less);
                }
                seen_less = true;
            },
            Ordering::Equal => (),
        }
        i = i + 1;
    }
    proof {
        if rows@.len() <= 1 {
            assert(spec_ascending(*collator, rows@));
        }
    }
    !(seen_less && seen_greater)
}

/// Compare `row` against `range` under `collator`: the row's leading
/// components are compared against the range's prefix; on an exact prefix
/// match the row's next component is compared against the range's bounds.
pub fn compare_row_to_range<C: Collate>(
    collator: &C,
    row: &Vec<<C as Collate>::Value>,
    range: &Range<<C as Collate>::Value>,
) -> (r: Ordering)
    ensures
        r == cmp_row_range(
            *collator,
            row@,
            range.spec_prefix(),
            range.spec_start(),
            range.spec_end(),
        ),
{
    let prefix = range.prefix();
    let mut i: usize = 0;
    proof {
        assert(row@.skip(0) =~= row@);
        assert(prefix@.skip(0) =~= prefix@);
    }
    while i < prefix.len()
        invariant
            0 <= i <= prefix@.len(),
            i <= row@.len(),
            prefix@ == range.spec_prefix(),
            cmp_row_range(
                *collator,
                row@,
                range.spec_prefix(),
                range.spec_start(),
                range.spec_end(),
            ) == cmp_row_range(
                *collator,
                row@.skip(i as int),
                prefix@.skip(i as int),
                range.spec_start(),
                range.spec_end(),
            ),
        decreases prefix@.len() - i,
    {
        if i >= row.len() {
            return Ordering::Less;
        }
        match collator.compare(&row[i], &prefix[i]) {
            Ordering::Equal => {
                proof {
                    assert(row@.skip(i as int).skip(1) =~= row@.skip(i + 1));
                    assert(prefix@.skip(i as int).skip(1) =~= prefix@.skip(i + 1));
                }
                i = i + 1;
            },
            o => {
                return o;
            },
        }
    }
    proof {
        assert(prefix@.skip(i as int) =~= Seq::<<C as Collate>::Value>::empty());
    }
    match (range.start(), range.end()) {
        (Bound::Unbounded, Bound::Unbounded) => Ordering::Equal,
        _ => {
            if i >= row.len() {
                return Ordering::Less;
            }
            let value = &row[i];
            proof {
                assert(row@.skip(i as int)[0] == row@[i as int]);
            }
            let after_start = match range.start() {
                Bound::Unbounded => true,
                Bound::Included(outer) => match collator.compare(value, outer) {
                    Ordering::Less => false,
                    _ => true,
                },
                Bound::Excluded(outer) => match collator.compare(value, outer) {
                    Ordering::Greater => true,
                    _ => false,
                },
            };
            if !after_start {
                return Ordering::Less;
            }
            let before_end = match range.end() {
                Bound::Unbounded => true,
                Bound::Included(outer) => match collator.compare(value, outer) {
                    Ordering::Greater => false,
                    _ => true,
                },
                Bound::Excluded(outer) => match collator.compare(value, outer) {
                    Ordering::Less => true,
                    _ => false,
                },
            };
            if !before_end {
                return Ordering::Greater;
            }
            Ordering::Equal
        },
    }
}

/// A reflexive ordering on [`Ordering`] values: `Less`, then `Equal`, then
/// `Greater`.
pub open spec fn ord_le(x: Ordering, y: Ordering) -> bool {
    match x {
        Ordering::Less => true,
        Ordering::Equal => y != Ordering::Less,
        Ordering::Greater => y == Ordering::Greater,
    }
}

/// A row compares `Equal` to itself under [`cmp_rows`].
pub proof fn lemma_cmp_rows_reflexive<C: Collate>(collator: C, a: Seq<<C as Collate>::Value>)
    ensures
        cmp_rows(collator, a, a) == Ordering::Equal,
    decreases a.len(),
{
    if a.len() > 0 {
        collator.antisymmetry(a[0], a[0]);
        lemma_cmp_rows_reflexive(collator, a.skip(1));
    }
}

/// [`cmp_rows`] is transitive: a row at most equal to a second, which is at
/// most equal to a third, is at most equal to the third.
pub proof fn lemma_cmp_rows_le_trans<C: Collate>(
    collator: C,
    a: Seq<<C as Collate>::Value>,
    b: Seq<<C as Collate>::Value>,
    d: Seq<<C as Collate>::Value>,
)
    requires
        cmp_rows(collator, a, b) != Ordering::Greater,
        cmp_rows(collator, b, d) != Ordering::Greater,
    ensures
        cmp_rows(collator, a, d) != Ordering::Greater,
    decreases a.len(),
{
    if a.len() > 0 {
        assert(b.len() > 0);
        assert(d.len() > 0);
        let x = collator.cmp_spec(a[0], b[0]);
        let y = collator.cmp_spec(b[0], d[0]);
        assert(x != Ordering::Greater);
        assert(y != Ordering::Greater);
        if x == Ordering::Less {
            crate::lemma_less_le_less(collator, a[0], b[0], d[0]);
        } else if y == Ordering::Less {
            crate::lemma_le_less_less(collator, a[0], b[0], d[0]);
        } else {
            crate::lemma_eq_trans(collator, a[0], b[0], d[0]);
            lemma_cmp_rows_le_trans(collator, a.skip(1), b.skip(1), d.skip(1));
        }
    }
}

/// A sequence in which each row is at most equal to the next is sorted
/// between every pair of positions.
pub proof fn lemma_ascending_implies_sorted<C: Collate>(
    collator: C,
    rows: Seq<Vec<<C as Collate>::Value>>,
)
    requires
        spec_ascending(collator, rows),
    ensures
        spec_sorted(collator, rows),
{
    assert forall|i: int, j: int| 0 <= i <= j < rows.len() implies #[trigger] cmp_rows(
        collator,
        rows[i]@,
        rows[j]@,
    ) != Ordering::Greater by {
        lemma_sorted_gap(collator, rows, i, j);
    }
}

proof fn lemma_sorted_gap<C: Collate>(
    collator: C,
    rows: Seq<Vec<<C as Collate>::Value>>,
    i: int,
    j: int,
)
    requires
        spec_ascending(collator, rows),
        0 <= i <= j < rows.len(),
    ensures
        cmp_rows(collator, rows[i]@, rows[j]@) != Ordering::Greater,
    decreases j - i,
{
    if i == j {
        lemma_cmp_rows_reflexive(collator, rows[i]@);
    } else {
        lemma_sorted_gap(collator, rows, i, j - 1);
        assert(cmp_rows(collator, rows[j - 1]@, rows[j - 1 + 1]@) != Ordering::Greater);
        lemma_cmp_rows_le_trans(collator, rows[i]@, rows[j - 1]@, rows[j]@);
    }
}

/// Against a fixed key, [`cmp_row_key`] is monotone in the row: a row at
/// most equal to another classifies at most as high against the key.
pub proof fn lemma_row_key_monotone<C: Collate>(
    collator: C,
    a: Seq<<C as Collate>::Value>,
    b: Seq<<C as Collate>::Value>,
    key: Seq<<C as Collate>::Value>,
)
    requires
        cmp_rows(collator, a, b) != Ordering::Greater,
    ensures
        ord_le(cmp_row_key(collator, a, key), cmp_row_key(collator, b, key)),
    decreases a.len(),
{
    if key.len() == 0 || a.len() == 0 {
    } else {
        assert(b.len() > 0);
        let x = collator.cmp_spec(a[0], b[0]);
        let ca = collator.cmp_spec(a[0], key[0]);
        assert(x != Ordering::Greater);
        if ca == Ordering::Less {
        } else if ca == Ordering::Greater {
            collator.antisymmetry(a[0], key[0]);
            crate::lemma_less_le_less(collator, key[0], a[0], b[0]);
            collator.antisymmetry(b[0], key[0]);
        } else {
            if x == Ordering::Less {
                crate::lemma_eq_sym(collator, a[0], key[0]);
                crate::lemma_le_less_less(collator, key[0], a[0], b[0]);
                collator.antisymmetry(b[0], key[0]);
            } else {
                crate::lemma_eq_sym(collator, a[0], b[0]);
                crate::lemma_eq_trans(collator, b[0], a[0], key[0]);
                lemma_row_key_monotone(collator, a.skip(1), b.skip(1), key.skip(1));
            }
        }
    }
}

/// Against a fixed range, [`cmp_row_range`] is monotone in the row: a row at
/// most equal to another classifies at most as high against the range.
pub proof fn lemma_row_range_monotone<C: Collate>(
    collator: C,
    a: Seq<<C as Collate>::Value>,
    b: Seq<<C as Collate>::Value>,
    prefix: Seq<<C as Collate>::Value>,
    start: Bound<<C as Collate>::Value>,
    end: Bound<<C as Collate>::Value>,
)
    requires
        cmp_rows(collator, a, b) != Ordering::Greater,
    ensures
        ord_le(
            cmp_row_range(collator, a, prefix, start, end),
            cmp_row_range(collator, b, prefix, start, end),
        ),
    decreases a.len(),
{
    if prefix.len() > 0 {
        if a.len() == 0 {
        } else {
            assert(b.len() > 0);
            let x = collator.cmp_spec(a[0], b[0]);
            let ca = collator.cmp_spec(a[0], prefix[0]);
            assert(x != Ordering::Greater);
            if ca == Ordering::Less {
            } else if ca == Ordering::Greater {
                collator.antisymmetry(a[0], prefix[0]);
                crate::lemma_less_le_less(collator, prefix[0], a[0], b[0]);
                collator.antisymmetry(b[0], prefix[0]);
            } else {
                if x == Ordering::Less {
                    crate::lemma_eq_sym(collator, a[0], prefix[0]);
                    crate::lemma_le_less_less(collator, prefix[0], a[0], b[0]);
                    collator.antisymmetry(b[0], prefix[0]);
                } else {
                    crate::lemma_eq_sym(collator, a[0], b[0]);
                    crate::lemma_eq_trans(collator, b[0], a[0], prefix[0]);
                    lemma_row_range_monotone(
                        collator,
                        a.skip(1),
                        b.skip(1),
                        prefix.skip(1),
                        start,
                        end,
                    );
                }
            }
        }
    } else {
        if start is Unbounded && end is Unbounded {
        } else if a.len() == 0 {
        } else {
            assert(b.len() > 0);
            assert(collator.cmp_spec(a[0], b[0]) != Ordering::Greater);
            if !spec_on_or_after_start(collator, start, a[0]) {
            } else {
                lemma_bound_step(collator, start, end, a[0], b[0]);
            }
        }
    }
}

/// A value that clears the start bound carries the classification across a
/// non-greater step: the greater value also clears the start bound, and if
/// the lesser one lies past the end bound, so does the greater one.
proof fn lemma_bound_step<C: Collate>(
    collator: C,
    start: Bound<<C as Collate>::Value>,
    end: Bound<<C as Collate>::Value>,
    v: <C as Collate>::Value,
    w: <C as Collate>::Value,
)
    requires
        collator.cmp_spec(v, w) != Ordering::Greater,
        spec_on_or_after_start(collator, start, v),
    ensures
        spec_on_or_after_start(collator, start, w),
        !spec_on_or_before_end(collator, end, v) ==> !spec_on_or_before_end(collator, end, w),
{
    match start {
        Bound::Unbounded => (),
        Bound::Included(s) => {
            collator.antisymmetry(v, s);
            collator.transitivity(s, v, w);
            collator.antisymmetry(w, s);
        },
        Bound::Excluded(s) => {
            collator.antisymmetry(v, s);
            crate::lemma_less_le_less(collator, s, v, w);
            collator.antisymmetry(w, s);
        },
    }
    if !spec_on_or_before_end(collator, end, v) {
        match end {
            Bound::Unbounded => (),
            Bound::Included(e) => {
                collator.antisymmetry(v, e);
                crate::lemma_less_le_less(collator, e, v, w);
                collator.antisymmetry(w, e);
            },
            Bound::Excluded(e) => {
                collator.antisymmetry(v, e);
                collator.transitivity(e, v, w);
                collator.antisymmetry(w, e);
            },
        }
    }
}

/// Find the first insertion index for `key` in the sorted sequence `rows`:
/// every row before the returned index compares `Less` than `key` (restricted
/// to the key's length) and no row at or after it does. An empty `key`
/// matches every row, so the result is then `0`.
pub fn bisect_left<C: Collate>(
    collator: &C,
    rows: &Vec<Vec<<C as Collate>::Value>>,
    key: &Vec<<C as Collate>::Value>,
) -> (r: usize)
    requires
        spec_sorted(*collator, rows@),
    ensures
        0 <= r <= rows@.len(),
        forall|i: int|
            0 <= i < r ==> #[trigger] cmp_row_key(*collator, rows@[i]@, key@) == Ordering::Less,
        forall|i: int|
            r <= i < rows@.len() ==> #[trigger] cmp_row_key(*collator, rows@[i]@, key@)
                != Ordering::Less,
{
    let mut lo: usize = 0;
    let mut hi: usize = rows.len();
    while lo < hi
        invariant
            0 <= lo <= hi <= rows@.len(),
            spec_sorted(*collator, rows@),
            forall|i: int|
                0 <= i < lo ==> #[trigger] cmp_row_key(*collator, rows@[i]@, key@)
                    == Ordering::Less,
            forall|i: int|
                hi <= i < rows@.len() ==> #[trigger] cmp_row_key(*collator, rows@[i]@, key@)
                    != Ordering::Less,
        decreases hi - lo,
    {
        let mid = lo + (hi - lo) / 2;
        match compare_row_key(collator, &rows[mid], key) {
            Ordering::Less => {
                proof {
                    assert forall|i: int| 0 <= i <= mid implies #[trigger] cmp_row_key(
                        *collator,
                        rows@[i]@,
                        key@,
                    ) == Ordering::Less by {
                        lemma_row_key_monotone(*collator, rows@[i]@, rows@[mid as int]@, key@);
                    }
                }
                lo = mid + 1;
            },
            _ => {
                proof {
                    assert forall|i: int| mid <= i < rows@.len() implies #[trigger] cmp_row_key(
                        *collator,
                        rows@[i]@,
                        key@,
                    ) != Ordering::Less by {
                        lemma_row_key_monotone(*collator, rows@[mid as int]@, rows@[i]@, key@);
                    }
                }
                hi = mid;
            },
        }
    }
    lo
}

/// Find the last insertion index for `key` in the sorted sequence `rows`:
/// no row before the returned index compares `Greater` than `key` (restricted
/// to the key's length) and every row at or after it does. An empty `key`
/// matches every row, so the result is then `rows.len()`.
pub fn bisect_right<C: Collate>(
    collator: &C,
    rows: &Vec<Vec<<C as Collate>::Value>>,
    key: &Vec<<C as Collate>::Value>,
) -> (r: usize)
    requires
        spec_sorted(*collator, rows@),
    ensures
        0 <= r <= rows@.len(),
        forall|i: int|
            0 <= i < r ==> #[trigger] cmp_row_key(*collator, rows@[i]@, key@) != Ordering::Greater,
        forall|i: int|
            r <= i < rows@.len() ==> #[trigger] cmp_row_key(*collator, rows@[i]@, key@)
                == Ordering::Greater,
{
    let mut lo: usize = 0;
    let mut hi: usize = rows.len();
    while lo < hi
        invariant
            0 <= lo <= hi <= rows@.len(),
            spec_sorted(*collator, rows@),
            forall|i: int|
                0 <= i < lo ==> #[trigger] cmp_row_key(*collator, rows@[i]@, key@)
                    != Ordering::Greater,
            forall|i: int|
                hi <= i < rows@.len() ==> #[trigger] cmp_row_key(*collator, rows@[i]@, key@)
                    == Ordering::Greater,
        decreases hi - lo,
    {
        let mid = lo + (hi - lo) / 2;
        match compare_row_key(collator, &rows[mid], key) {
            Ordering::Greater => {
                proof {
                    assert forall|i: int| mid <= i < rows@.len() implies #[trigger] cmp_row_key(
                        *collator,
                        rows@[i]@,
                        key@,
                    ) == Ordering::Greater by {
                        lemma_row_key_monotone(*collator, rows@[mid as int]@, rows@[i]@, key@);
                    }
                }
                hi = mid;
            },
            _ => {
                proof {
                    assert forall|i: int| 0 <= i <= mid implies #[trigger] cmp_row_key(
                        *collator,
                        rows@[i]@,
                        key@,
                    ) != Ordering::Greater by {
                        lemma_row_key_monotone(*collator, rows@[i]@, rows@[mid as int]@, key@);
                    }
                }
                lo = mid + 1;
            },
        }
    }
    lo
}

/// Compare `row` against `key`, restricted to the key's length.
fn compare_row_key<C: Collate>(
    collator: &C,
    row: &Vec<<C as Collate>::Value>,
    key: &Vec<<C as Collate>::Value>,
) -> (r: Ordering)
    ensures
        r == cmp_row_key(*collator, row@, key@),
{
    let mut i: usize = 0;
    proof {
        assert(row@.skip(0) =~= row@);
        assert(key@.skip(0) =~= key@);
    }
    while i < key.len()
        invariant
            0 <= i <= key@.len(),
            i <= row@.len(),
            cmp_row_key(*collator, row@, key@) == cmp_row_key(
                *collator,
                row@.skip(i as int),
                key@.skip(i as int),
            ),
        decreases key@.len() - i,
    {
        if i >= row.len() {
            return Ordering::Less;
        }
        match collator.compare(&row[i], &key[i]) {
            Ordering::Equal => {
                proof {
                    assert(row@.skip(i as int).skip(1) =~= row@.skip(i + 1));
                    assert(key@.skip(i as int).skip(1) =~= key@.skip(i + 1));
                }
                i = i + 1;
            },
            o => {
                return o;
            },
        }
    }
    Ordering::Equal
}

/// Find both insertion indices for `range` in the sorted sequence `rows`:
/// rows before the first index compare `Less` than `range`, rows from the
/// first index up to the second compare `Equal`, and rows at or after the
/// second compare `Greater`. A range with an empty prefix and no bounds
/// matches every row, so the result is then `(0, rows.len())`.
pub fn bisect<C: Collate>(
    collator: &C,
    rows: &Vec<Vec<<C as Collate>::Value>>,
    range: &Range<<C as Collate>::Value>,
) -> (r: (usize, usize))
    requires
        spec_sorted(*collator, rows@),
    ensures
        0 <= r.0 <= r.1 <= rows@.len(),
        forall|i: int|
            0 <= i < r.0 ==> #[trigger] cmp_row_range(
                *collator,
                rows@[i]@,
                range.spec_prefix(),
                range.spec_start(),
                range.spec_end(),
            ) == Ordering::Less,
        forall|i: int|
            r.0 <= i < r.1 ==> #[trigger] cmp_row_range(
                *collator,
                rows@[i]@,
                range.spec_prefix(),
                range.spec_start(),
                range.spec_end(),
            ) == Ordering::Equal,
        forall|i: int|
            r.1 <= i < rows@.len() ==> #[trigger] cmp_row_range(
                *collator,
                rows@[i]@,
                range.spec_prefix(),
                range.spec_start(),
                range.spec_end(),
            ) == Ordering::Greater,
{
    let left = bisect_left_range(collator, rows, range);
    let right = bisect_right_range(collator, rows, range);
    proof {
        if right < left {
            assert(cmp_row_range(
                *collator,
                rows@[right as int]@,
                range.spec_prefix(),
                range.spec_start(),
                range.spec_end(),
            ) == Ordering::Less);
            assert(false);
        }
    }
    (left, right)
}

fn bisect_left_range<C: Collate>(
    collator: &C,
    rows: &Vec<Vec<<C as Collate>::Value>>,
    range: &Range<<C as Collate>::Value>,
) -> (r: usize)
    requires
        spec_sorted(*collator, rows@),
    ensures
        0 <= r <= rows@.len(),
        forall|i: int|
            0 <= i < r ==> #[trigger] cmp_row_range(
                *collator,
                rows@[i]@,
                range.spec_prefix(),
                range.spec_start(),
                range.spec_end(),
            ) == Ordering::Less,
        forall|i: int|
            r <= i < rows@.len() ==> #[trigger] cmp_row_range(
                *collator,
                rows@[i]@,
                range.spec_prefix(),
                range.spec_start(),
                range.spec_end(),
            ) != Ordering::Less,
{
    let ghost p = range.spec_prefix();
    let ghost s = range.spec_start();
    let ghost e = range.spec_end();
    let mut lo: usize = 0;
    let mut hi: usize = rows.len();
    while lo < hi
        invariant
            0 <= lo <= hi <= rows@.len(),
            spec_sorted(*collator, rows@),
            p == range.spec_prefix(),
            s == range.spec_start(),
            e == range.spec_end(),
            forall|i: int|
                0 <= i < lo ==> #[trigger] cmp_row_range(*collator, rows@[i]@, p, s, e)
                    == Ordering::Less,
            forall|i: int|
                hi <= i < rows@.len() ==> #[trigger] cmp_row_range(*collator, rows@[i]@, p, s, e)
                    != Ordering::Less,
        decreases hi - lo,
    {
        let mid = lo + (hi - lo) / 2;
        match compare_row_to_range(collator, &rows[mid], range) {
            Ordering::Less => {
                proof {
                    assert forall|i: int| 0 <= i <= mid implies #[trigger] cmp_row_range(
                        *collator,
                        rows@[i]@,
                        p,
                        s,
                        e,
                    ) == Ordering::Less by {
                        lemma_row_range_monotone(*collator, rows@[i]@, rows@[mid as int]@, p, s, e);
                    }
                }
                lo = mid + 1;
            },
            _ => {
                proof {
                    assert forall|i: int| mid <= i < rows@.len() implies #[trigger] cmp_row_range(
                        *collator,
                        rows@[i]@,
                        p,
                        s,
                        e,
                    ) != Ordering::Less by {
                        lemma_row_range_monotone(*collator, rows@[mid as int]@, rows@[i]@, p, s, e);
                    }
                }
                hi = mid;
            },
        }
    }
    lo
}

fn bisect_right_range<C: Collate>(
    collator: &C,
    rows: &Vec<Vec<<C as Collate>::Value>>,
    range: &Range<<C as Collate>::Value>,
) -> (r: usize)
    requires
        spec_sorted(*collator, rows@),
    ensures
        0 <= r <= rows@.len(),
        forall|i: int|
            0 <= i < r ==> #[trigger] cmp_row_range(
                *collator,
                rows@[i]@,
                range.spec_prefix(),
                range.spec_start(),
                range.spec_end(),
            ) != Ordering::Greater,
        forall|i: int|
            r <= i < rows@.len() ==> #[trigger] cmp_row_range(
                *collator,
                rows@[i]@,
                range.spec_prefix(),
                range.spec_start(),
                range.spec_end(),
            ) == Ordering::Greater,
{
    let ghost p = range.spec_prefix();
    let ghost s = range.spec_start();
    let ghost e = range.spec_end();
    let mut lo: usize = 0;
    let mut hi: usize = rows.len();
    while lo < hi
        invariant
            0 <= lo <= hi <= rows@.len(),
            spec_sorted(*collator, rows@),
            p == range.spec_prefix(),
            s == range.spec_start(),
            e == range.spec_end(),
            forall|i: int|
                0 <= i < lo ==> #[trigger] cmp_row_range(*collator, rows@[i]@, p, s, e)
                    != Ordering::Greater,
            forall|i: int|
                hi <= i < rows@.len() ==> #[trigger] cmp_row_range(*collator, rows@[i]@, p, s, e)
                    == Ordering::Greater,
        decreases hi - lo,
    {
        let mid = lo + (hi - lo) / 2;
        match compare_row_to_range(collator, &rows[mid], range) {
            Ordering::Greater => {
                proof {
                    assert forall|i: int| mid <= i < rows@.len() implies #[trigger] cmp_row_range(
                        *collator,
                        rows@[i]@,
                        p,
                        s,
                        e,
                    ) == Ordering::Greater by {
                        lemma_row_range_monotone(*collator, rows@[mid as int]@, rows@[i]@, p, s, e);
                    }
                }
                hi = mid;
            },
            _ => {
                proof {
                    assert forall|i: int| 0 <= i <= mid implies #[trigger] cmp_row_range(
                        *collator,
                        rows@[i]@,
                        p,
                        s,
                        e,
                    ) != Ordering::Greater by {
                        lemma_row_range_monotone(*collator, rows@[i]@, rows@[mid as int]@, p, s, e);
                    }
                }
                lo = mid + 1;
            },
        }
    }
    lo
}

/// The two bisection boundaries for one key bracket exactly the rows that
/// match the key: given the postconditions of [`bisect_left`] at `l` and of
/// [`bisect_right`] at `r`, `l` is at most `r`, every row between them
/// compares `Equal` to the key, rows before `l` compare `Less` and rows at
/// or after `r` compare `Greater`.
pub proof fn lemma_bisect_bounds<C: Collate>(
    collator: C,
    rows: Seq<Vec<<C as Collate>::Value>>,
    key: Seq<<C as Collate>::Value>,
    l: int,
    r: int,
)
    requires
        0 <= l <= rows.len(),
        0 <= r <= rows.len(),
        forall|i: int|
            0 <= i < l ==> #[trigger] cmp_row_key(collator, rows[i]@, key) == Ordering::Less,
        forall|i: int|
            l <= i < rows.len() ==> #[trigger] cmp_row_key(collator, rows[i]@, key)
                != Ordering::Less,
        forall|i: int|
            0 <= i < r ==> #[trigger] cmp_row_key(collator, rows[i]@, key) != Ordering::Greater,
        forall|i: int|
            r <= i < rows.len() ==> #[trigger] cmp_row_key(collator, rows[i]@, key)
                == Ordering::Greater,
    ensures
        l <= r,
        forall|i: int|
            l <= i < r ==> #[trigger] cmp_row_key(collator, rows[i]@, key) == Ordering::Equal,
{
    if r < l {
        assert(cmp_row_key(collator, rows[r]@, key) == Ordering::Less);
    }
}

} // verus!

