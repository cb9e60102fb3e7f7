//! The duplicate policy at the store boundary, as a model: both inserts the
//! collector sends carry a do-nothing-on-conflict clause, so a batch of rows
//! acts on a keyed table as `apply_rows` below.  The lemmas here are what a
//! rerun relies on: applying the same rows again changes nothing, and the
//! first-seen value of every key is the one retained.

use vstd::prelude::*;
use crate::query::combo_at;
use crate::query::QueryView;

verus! {

/// Whether some row of the batch carries the given key.
pub open spec fn rows_have_key<K, V>(rows: Seq<(K, V)>, k: K) -> bool {
    exists|i: int| 0 <= i < rows.len() && rows[i].0 == k
}

/// One insert under the do-nothing-on-conflict policy: a row whose key is
/// already present leaves the table exactly as it was.
pub open spec fn insert_keep_first<K, V>(m: Map<K, V>, k: K, v: V) -> Map<K, V> {
    if m.dom().contains(k) {
        m
    } else {
        m.insert(k, v)
    }
}

/// A whole batch of such inserts, first row first.
pub open spec fn apply_rows<K, V>(m: Map<K, V>, rows: Seq<(K, V)>) -> Map<K, V>
    decreases rows.len(),
{
    if rows.len() == 0 {
        m
    } else {
        apply_rows(insert_keep_first(m, rows[0].0, rows[0].1), rows.skip(1))
    }
}

/// After a batch, the table holds exactly its old keys and the batch's keys.
pub proof fn lemma_apply_rows_dom<K, V>(m: Map<K, V>, rows: Seq<(K, V)>)
    ensures
        forall|k: K| #![trigger apply_rows(m, rows).dom().contains(k)]
            apply_rows(m, rows).dom().contains(k) <==> (m.dom().contains(k) || rows_have_key(
                rows,
                k,
            )),
    decreases rows.len(),
{
    if rows.len() == 0 {
        assert(forall|k: K| !rows_have_key(rows, k));
    } else {
        let m1 = insert_keep_first(m, rows[0].0, rows[0].1);
        lemma_apply_rows_dom(m1, rows.skip(1));
        assert(apply_rows(m, rows) == apply_rows(m1, rows.skip(1)));
        assert forall|k: K|
            apply_rows(m, rows).dom().contains(k) implies (m.dom().contains(k) || rows_have_key(
            rows,
            k,
        )) by {
            assert(apply_rows(m1, rows.skip(1)).dom().contains(k));
            if !m.dom().contains(k) {
                if m1.dom().contains(k) {
                    assert(rows[0].0 == k);
                    assert(rows_have_key(rows, k));
                } else {
                    assert(rows_have_key(rows.skip(1), k));
                    let i = choose|i: int|
                        0 <= i < rows.skip(1).len() && rows.skip(1)[i].0 == k;
                    assert(rows[i + 1].0 == k);
                    assert(rows_have_key(rows, k));
                }
            }
        }
        assert forall|k: K|
            (m.dom().contains(k) || rows_have_key(rows, k)) implies apply_rows(
            m,
            rows,
        ).dom().contains(k) by {
            if m.dom().contains(k) {
                assert(m1.dom().contains(k));
                assert(apply_rows(m1, rows.skip(1)).dom().contains(k));
            } else {
                let i = choose|i: int| 0 <= i < rows.len() && rows[i].0 == k;
                if i == 0 {
                    assert(m1.dom().contains(k));
                    assert(apply_rows(m1, rows.skip(1)).dom().contains(k));
                } else {
                    assert(rows.skip(1)[i - 1].0 == k);
                    assert(rows_have_key(rows.skip(1), k));
                    assert(apply_rows(m1, rows.skip(1)).dom().contains(k));
                }
            }
        }
    }
}

/// A key already present keeps its value through any batch.
pub proof fn lemma_apply_rows_keeps<K, V>(m: Map<K, V>, rows: Seq<(K, V)>, k: K)
    requires
        m.dom().contains(k),
    ensures
        apply_rows(m, rows).dom().contains(k),
        apply_rows(m, rows)[k] == m[k],
    decreases rows.len(),
{
    if rows.len() > 0 {
        let m1 = insert_keep_first(m, rows[0].0, rows[0].1);
        assert(m1.dom().contains(k) && m1[k] == m[k]);
        lemma_apply_rows_keeps(m1, rows.skip(1), k);
    }
}

/// A batch whose keys are all present already changes nothing.
pub proof fn lemma_apply_rows_unchanged<K, V>(m: Map<K, V>, rows: Seq<(K, V)>)
    requires
        forall|i: int| 0 <= i < rows.len() ==> m.dom().contains(#[trigger] rows[i].0),
    ensures
        apply_rows(m, rows) == m,
    decreases rows.len(),
{
    if rows.len() > 0 {
        let m1 = insert_keep_first(m, rows[0].0, rows[0].1);
        assert(m1 == m);
        assert(forall|i: int|
            0 <= i < rows.skip(1).len() ==> m.dom().contains(#[trigger] rows.skip(1)[i].0));
        lemma_apply_rows_unchanged(m, rows.skip(1));
    }
}

/// Running the same batch twice leaves the table exactly as one run leaves
/// it: the same-day rerun of the listings sweep and the overlapping
/// exchange-rate insert both change nothing the second time, and in
/// particular raise no uniqueness violation and double-count no row.
pub proof fn lemma_apply_rows_idempotent<K, V>(m: Map<K, V>, rows: Seq<(K, V)>)
    ensures
        apply_rows(apply_rows(m, rows), rows) == apply_rows(m, rows),
{
    let once = apply_rows(m, rows);
    lemma_apply_rows_dom(m, rows);
    assert forall|i: int| 0 <= i < rows.len() implies once.dom().contains(
        #[trigger] rows[i].0,
    ) by {
        assert(rows_have_key(rows, rows[i].0));
    }
    lemma_apply_rows_unchanged(once, rows);
}

/// For a key the table did not hold, the value retained is the first one
/// the batch carries for that key: later rows for the same date never
/// overwrite an earlier price.
pub proof fn lemma_apply_rows_first_seen<K, V>(m: Map<K, V>, rows: Seq<(K, V)>, i: int)
    requires
        0 <= i < rows.len(),
        !m.dom().contains(rows[i].0),
        forall|j: int| 0 <= j < i ==> (#[trigger] rows[j]).0 != rows[i].0,
    ensures
        apply_rows(m, rows).dom().contains(rows[i].0),
        apply_rows(m, rows)[rows[i].0] == rows[i].1,
    decreases rows.len(),
{
    let k = rows[i].0;
    let m1 = insert_keep_first(m, rows[0].0, rows[0].1);
    if i == 0 {
        assert(m1 == m.insert(k, rows[0].1));
        lemma_apply_rows_keeps(m1, rows.skip(1), k);
    } else {
        assert(rows[0].0 != k);
        assert(!m1.dom().contains(k));
        assert(rows.skip(1)[i - 1] == rows[i]);
        assert(forall|j: int|
            0 <= j < i - 1 ==> (#[trigger] rows.skip(1)[j]).0 != rows.skip(1)[i - 1].0);
        lemma_apply_rows_first_seen(m1, rows.skip(1), i - 1);
    }
}

/// The rows one full sweep inserts on a given date: one row per combination,
/// keyed by the date and the query, holding whatever count that run fetched.
pub open spec fn sweep_rows(date: int, counts: Seq<int>) -> Seq<((int, QueryView), int)> {
    Seq::new(48, |i: int| ((date, combo_at(i)), counts[i]))
}

/// Re-running the full sweep on the same calendar date changes nothing: the
/// second run's 48 rows carry the keys the first run already inserted, so no
/// uniqueness violation arises and no combination is counted twice —
/// whatever counts the second run fetched.
pub proof fn lemma_sweep_rerun_unchanged(
    m: Map<(int, QueryView), int>,
    date: int,
    first_counts: Seq<int>,
    second_counts: Seq<int>,
)
    ensures
        apply_rows(apply_rows(m, sweep_rows(date, first_counts)), sweep_rows(date, second_counts))
            == apply_rows(m, sweep_rows(date, first_counts)),
{
    let once = apply_rows(m, sweep_rows(date, first_counts));
    let again = sweep_rows(date, second_counts);
    lemma_apply_rows_dom(m, sweep_rows(date, first_counts));
    assert forall|i: int| 0 <= i < again.len() implies once.dom().contains(
        #[trigger] again[i].0,
    ) by {
        assert(again[i].0 == (date, combo_at(i)));
        assert(sweep_rows(date, first_counts)[i].0 == (date, combo_at(i)));
        assert(rows_have_key(sweep_rows(date, first_counts), (date, combo_at(i))));
    }
    lemma_apply_rows_unchanged(once, again);
}

} // verus!
