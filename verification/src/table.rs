//! Looking a row up in a table held as a sequence.
//!
//! A lookup answers with the first row that satisfies a predicate, so it is
//! determined by the rows alone, whatever keys they share.

use vstd::prelude::*;

verus! {

/// `i` is the first position of `rows` whose row satisfies `pred`.
pub open spec fn is_first<T>(rows: Seq<T>, pred: spec_fn(T) -> bool, i: int) -> bool {
    &&& 0 <= i < rows.len()
    &&& pred(rows[i])
    &&& forall|j: int| 0 <= j < i ==> !pred(#[trigger] rows[j])
}

/// Some row of `rows` satisfies `pred`.
pub open spec fn any<T>(rows: Seq<T>, pred: spec_fn(T) -> bool) -> bool {
    exists|i: int| 0 <= i < rows.len() && pred(#[trigger] rows[i])
}

/// The position of the first row that satisfies `pred`.
pub open spec fn position<T>(rows: Seq<T>, pred: spec_fn(T) -> bool) -> Option<int> {
    if exists|i: int| is_first(rows, pred, i) {
        Some(choose|i: int| is_first(rows, pred, i))
    } else {
        None
    }
}

/// The first row that satisfies `pred`.
pub open spec fn find<T>(rows: Seq<T>, pred: spec_fn(T) -> bool) -> Option<T> {
    match position(rows, pred) {
        Some(i) => Some(rows[i]),
        None => None,
    }
}

/// A first position is the position that a lookup answers with.
pub proof fn lemma_position_at<T>(rows: Seq<T>, pred: spec_fn(T) -> bool, i: int)
    requires
        is_first(rows, pred, i),
    ensures
        position(rows, pred) == Some(i),
        find(rows, pred) == Some(rows[i]),
        any(rows, pred),
{
    let k = choose|k: int| is_first(rows, pred, k);
    assert(is_first(rows, pred, k));
    if k < i {
        assert(!pred(rows[k]));
    }
    if i < k {
        assert(!pred(rows[i]));
    }
}

/// Where no row satisfies the predicate a lookup finds nothing.
pub proof fn lemma_position_none<T>(rows: Seq<T>, pred: spec_fn(T) -> bool)
    requires
        forall|j: int| 0 <= j < rows.len() ==> !pred(#[trigger] rows[j]),
    ensures
        position(rows, pred) is None,
        find(rows, pred) is None,
        !any(rows, pred),
{
    if exists|i: int| is_first(rows, pred, i) {
        let k = choose|k: int| is_first(rows, pred, k);
        assert(pred(rows[k]));
    }
}

/// The least position below `bound` whose row satisfies `pred`, given that
/// the row at `bound` does.
pub proof fn lemma_least<T>(rows: Seq<T>, pred: spec_fn(T) -> bool, bound: int) -> (i: int)
    requires
        0 <= bound < rows.len(),
        pred(rows[bound]),
    ensures
        is_first(rows, pred, i),
        i <= bound,
    decreases bound,
{
    if exists|j: int| 0 <= j < bound && pred(#[trigger] rows[j]) {
        let j = choose|j: int| 0 <= j < bound && pred(#[trigger] rows[j]);
        lemma_least(rows, pred, j)
    } else {
        bound
    }
}

/// What a lookup says of its answer: a found position is a first position, and
/// nothing is found only where no row satisfies the predicate.
pub proof fn lemma_position<T>(rows: Seq<T>, pred: spec_fn(T) -> bool)
    ensures
        match position(rows, pred) {
            Some(i) => is_first(rows, pred, i) && find(rows, pred) == Some(rows[i]),
            None => find(rows, pred) is None && forall|j: int|
                0 <= j < rows.len() ==> !pred(#[trigger] rows[j]),
        },
        any(rows, pred) <==> position(rows, pred) is Some,
{
    if exists|i: int| is_first(rows, pred, i) {
        let k = choose|k: int| is_first(rows, pred, k);
        assert(pred(rows[k]));
    } else {
        assert forall|j: int| 0 <= j < rows.len() implies !pred(#[trigger] rows[j]) by {
            if pred(rows[j]) {
                let i = lemma_least(rows, pred, j);
                assert(is_first(rows, pred, i));
            }
        }
    }
}

/// A lookup after a row was appended answers as before where it found a row,
/// and with the new row where that is the first to satisfy the predicate.
pub proof fn lemma_find_push<T>(rows: Seq<T>, row: T, pred: spec_fn(T) -> bool)
    ensures
        find(rows.push(row), pred) == (if find(rows, pred) is Some {
            find(rows, pred)
        } else if pred(row) {
            Some(row)
        } else {
            None
        }),
{
    let longer = rows.push(row);
    lemma_position(rows, pred);
    match position(rows, pred) {
        Some(i) => {
            assert(longer[i] == rows[i]);
            assert forall|j: int| 0 <= j < i implies !pred(#[trigger] longer[j]) by {
                assert(longer[j] == rows[j]);
            }
            lemma_position_at(longer, pred, i);
        },
        None => {
            if pred(row) {
                assert(longer[rows.len() as int] == row);
                assert forall|j: int| 0 <= j < rows.len() implies !pred(#[trigger] longer[j]) by {
                    assert(longer[j] == rows[j]);
                }
                lemma_position_at(longer, pred, rows.len() as int);
            } else {
                assert forall|j: int| 0 <= j < longer.len() implies !pred(#[trigger] longer[j]) by {
                    if j < rows.len() {
                        assert(longer[j] == rows[j]);
                    }
                }
                lemma_position_none(longer, pred);
            }
        },
    }
}

/// A lookup for rows that a filter keeps answers after the filter as before.
pub proof fn lemma_find_kept<T>(rows: Seq<T>, keep: spec_fn(T) -> bool, pred: spec_fn(T) -> bool)
    requires
        forall|r: T| #[trigger] pred(r) ==> keep(r),
    ensures
        find(rows.filter(keep), pred) == find(rows, pred),
    decreases rows.len(),
{
    if rows.len() == 0 {
        assert(rows.filter(keep) =~= rows) by {
            reveal(Seq::filter);
        }
    } else {
        let init = rows.drop_last();
        let last = rows.last();
        assert(rows =~= init.push(last));
        lemma_find_kept(init, keep, pred);
        init.lemma_filter_push(last, keep);
        lemma_find_push(init, last, pred);
        lemma_find_push(init.filter(keep), last, pred);
    }
}

/// A lookup after one row was replaced by a row that the predicate judges
/// alike answers with the new row at that position and as before elsewhere.
pub proof fn lemma_find_update<T>(rows: Seq<T>, at: int, row: T, pred: spec_fn(T) -> bool)
    requires
        0 <= at < rows.len(),
        pred(row) == pred(rows[at]),
    ensures
        find(rows.update(at, row), pred) == (if position(rows, pred) == Some(at) {
            Some(row)
        } else {
            find(rows, pred)
        }),
{
    let changed = rows.update(at, row);
    lemma_position(rows, pred);
    match position(rows, pred) {
        Some(i) => {
            assert(pred(changed[i]));
            assert forall|j: int| 0 <= j < i implies !pred(#[trigger] changed[j]) by {
                assert(!pred(rows[j]));
            }
            lemma_position_at(changed, pred, i);
        },
        None => {
            assert forall|j: int| 0 <= j < changed.len() implies !pred(#[trigger] changed[j]) by {
                assert(!pred(rows[j]));
            }
            lemma_position_none(changed, pred);
        },
    }
}

/// A lookup finds nothing after a filter that drops every row of the table
/// that the lookup is for.
pub proof fn lemma_find_all_dropped<T>(
    rows: Seq<T>,
    keep: spec_fn(T) -> bool,
    pred: spec_fn(T) -> bool,
)
    requires
        forall|i: int| 0 <= i < rows.len() && pred(#[trigger] rows[i]) ==> !keep(rows[i]),
    ensures
        find(rows.filter(keep), pred) is None,
    decreases rows.len(),
{
    if rows.len() == 0 {
        assert(rows.filter(keep) =~= rows) by {
            reveal(Seq::filter);
        }
        lemma_position_none(rows, pred);
    } else {
        let init = rows.drop_last();
        let last = rows.last();
        assert(rows =~= init.push(last));
        assert forall|i: int| 0 <= i < init.len() && pred(#[trigger] init[i]) implies !keep(
            init[i],
        ) by {
            assert(init[i] == rows[i]);
        }
        lemma_find_all_dropped(init, keep, pred);
        init.lemma_filter_push(last, keep);
        lemma_find_push(init.filter(keep), last, pred);
        assert(pred(rows[rows.len() - 1]) ==> !keep(rows[rows.len() - 1]));
    }
}

/// Where two predicates single out the same row of a table and the second
/// holds of no other row, a lookup by the second finds what a lookup by the
/// first finds.
pub proof fn lemma_find_same<T>(rows: Seq<T>, first: spec_fn(T) -> bool, second: spec_fn(T) -> bool)
    requires
        find(rows, first) is Some,
        second(find(rows, first).unwrap()),
        forall|i: int, j: int|
            0 <= i < rows.len() && 0 <= j < rows.len() && second(#[trigger] rows[i]) && second(
                #[trigger] rows[j],
            ) ==> i == j,
    ensures
        find(rows, second) == find(rows, first),
{
    lemma_position(rows, first);
    let at = position(rows, first).unwrap();
    assert(second(rows[at]));
    assert forall|j: int| 0 <= j < at implies !second(#[trigger] rows[j]) by {
        if second(rows[j]) {
            assert(at == j);
        }
    }
    lemma_position_at(rows, second, at);
}

/// A row that is there stays there when another is appended.
pub proof fn lemma_any_push<T>(rows: Seq<T>, row: T, pred: spec_fn(T) -> bool)
    requires
        any(rows, pred),
    ensures
        any(rows.push(row), pred),
{
    let i = choose|i: int| 0 <= i < rows.len() && pred(#[trigger] rows[i]);
    assert(pred(rows.push(row)[i]));
}

/// A row that is there stays there when a row is replaced by one that the
/// predicate judges alike.
pub proof fn lemma_any_update<T>(rows: Seq<T>, at: int, row: T, pred: spec_fn(T) -> bool)
    requires
        0 <= at < rows.len(),
        pred(row) == pred(rows[at]),
        any(rows, pred),
    ensures
        any(rows.update(at, row), pred),
{
    let i = choose|i: int| 0 <= i < rows.len() && pred(#[trigger] rows[i]);
    assert(pred(rows.update(at, row)[i]));
}

} // verus!
