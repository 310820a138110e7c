//! Ordering of listed rows: whatever order the storage engine delivers rows
//! in, a listing holds one row per id, ascending by id, and of several rows
//! with one id the one delivered last.

use vstd::prelude::*;
use crate::todo::{Todo, TodoView};

verus! {

/// The values of a sequence of rows.
pub open spec fn views(rows: Seq<Todo>) -> Seq<TodoView> {
    rows.map_values(|t: Todo| t@)
}

/// Ids grow strictly from each row to the next.
pub open spec fn ascending_by_id(s: Seq<TodoView>) -> bool {
    forall|i: int, j: int| 0 <= i < j < s.len() ==> s[i].id < s[j].id
}

/// No row after position `k` has the id of the row at `k`.
pub open spec fn is_last_with_id(rows: Seq<TodoView>, k: int) -> bool {
    &&& 0 <= k < rows.len()
    &&& forall|m: int| k < m < rows.len() ==> rows[m].id != rows[k].id
}

/// `row` was delivered, and no row delivered after it has its id.
pub open spec fn is_last_delivered(rows: Seq<TodoView>, row: TodoView) -> bool {
    exists|k: int| #[trigger] is_last_with_id(rows, k) && rows[k] == row
}

/// Some row of `listed` has the id `id`.
pub open spec fn lists_id(listed: Seq<TodoView>, id: int) -> bool {
    exists|i: int| 0 <= i < listed.len() && (#[trigger] listed[i]).id == id
}

/// `listed` is the listing of the delivered `rows`: strictly ascending by
/// id, every listed row is the last delivered row of its id, and every
/// delivered id is listed.
pub open spec fn is_listing_of(listed: Seq<TodoView>, rows: Seq<TodoView>) -> bool {
    &&& ascending_by_id(listed)
    &&& forall|i: int| 0 <= i < listed.len() ==> is_last_delivered(rows, #[trigger] listed[i])
    &&& forall|k: int| 0 <= k < rows.len() ==> lists_id(listed, (#[trigger] rows[k]).id)
}

/// A row whose id is listed already takes the place of the row listed
/// under that id.
proof fn lemma_replace_row(listed: Seq<TodoView>, rows: Seq<TodoView>, row: TodoView, at: int)
    requires
        is_listing_of(listed, rows),
        0 <= at < listed.len(),
        listed[at].id == row.id,
    ensures
        is_listing_of(listed.update(at, row), rows.push(row)),
{
    let after = listed.update(at, row);
    let more = rows.push(row);
    let n = rows.len() as int;
    assert forall|i: int, j: int| 0 <= i < j < after.len() implies after[i].id < after[j].id by {
        assert(listed[i].id < listed[j].id);
    }
    assert forall|i: int| 0 <= i < after.len() implies is_last_delivered(
        more,
        #[trigger] after[i],
    ) by {
        if i == at {
            assert(is_last_with_id(more, n) && more[n] == after[i]);
        } else {
            assert(is_last_delivered(rows, listed[i]));
            let k = choose|k: int| #[trigger] is_last_with_id(rows, k) && rows[k] == listed[i];
            assert(listed[i].id != listed[at].id) by {
                if i < at {
                    assert(listed[i].id < listed[at].id);
                } else {
                    assert(listed[at].id < listed[i].id);
                }
            }
            assert forall|m: int| k < m < more.len() implies more[m].id != more[k].id by {
                if m < n {
                    assert(rows[m].id != rows[k].id);
                }
            }
            assert(is_last_with_id(more, k) && more[k] == after[i]);
        }
    }
    assert forall|k: int| 0 <= k < more.len() implies lists_id(after, (#[trigger] more[k]).id) by {
        if k == n {
            assert(0 <= at < after.len() && after[at].id == more[k].id);
        } else {
            assert(lists_id(listed, rows[k].id));
            let i = choose|i: int| 0 <= i < listed.len() && (#[trigger] listed[i]).id == rows[k].id;
            assert(0 <= i < after.len() && after[i].id == more[k].id);
        }
    }
}

/// A row whose id is not listed yet enters at the position that keeps the
/// ids ascending.
proof fn lemma_place_row(listed: Seq<TodoView>, rows: Seq<TodoView>, row: TodoView, at: int)
    requires
        is_listing_of(listed, rows),
        0 <= at <= listed.len(),
        forall|i: int| 0 <= i < at ==> (#[trigger] listed[i]).id < row.id,
        forall|i: int| at <= i < listed.len() ==> (#[trigger] listed[i]).id > row.id,
    ensures
        is_listing_of(listed.insert(at, row), rows.push(row)),
{
    let after = listed.insert(at, row);
    let more = rows.push(row);
    let n = rows.len() as int;
    assert forall|i: int, j: int| 0 <= i < j < after.len() implies after[i].id < after[j].id by {
        let pi = if i < at { i } else { i - 1 };
        let pj = if j < at { j } else { j - 1 };
        if i != at && j != at {
            assert(listed[pi].id < listed[pj].id);
        } else if i == at {
            assert(after[j] == listed[pj]);
        } else {
            assert(after[i] == listed[pi]);
        }
    }
    assert forall|i: int| 0 <= i < after.len() implies is_last_delivered(
        more,
        #[trigger] after[i],
    ) by {
        if i == at {
            assert(is_last_with_id(more, n) && more[n] == after[i]);
        } else {
            let pi = if i < at { i } else { i - 1 };
            assert(after[i] == listed[pi]);
            assert(listed[pi].id != row.id);
            assert(is_last_delivered(rows, listed[pi]));
            let k = choose|k: int| #[trigger] is_last_with_id(rows, k) && rows[k] == listed[pi];
            assert forall|m: int| k < m < more.len() implies more[m].id != more[k].id by {
                if m < n {
                    assert(rows[m].id != rows[k].id);
                }
            }
            assert(is_last_with_id(more, k) && more[k] == after[i]);
        }
    }
    assert forall|k: int| 0 <= k < more.len() implies lists_id(after, (#[trigger] more[k]).id) by {
        if k == n {
            assert(0 <= at < after.len() && after[at].id == more[k].id);
        } else {
            assert(lists_id(listed, rows[k].id));
            let pi = choose|i: int|
                0 <= i < listed.len() && (#[trigger] listed[i]).id == rows[k].id;
            let i = if pi < at { pi } else { pi + 1 };
            assert(after[i] == listed[pi]);
            assert(0 <= i < after.len() && after[i].id == more[k].id);
        }
    }
}

/// Only delivered ids are listed: every id of a listing is the id of some
/// delivered row. An id that the engine no longer delivers is in no listing.
pub proof fn lemma_listed_ids_were_delivered(listed: Seq<TodoView>, rows: Seq<TodoView>, i: int)
    requires
        is_listing_of(listed, rows),
        0 <= i < listed.len(),
    ensures
        exists|k: int| 0 <= k < rows.len() && (#[trigger] rows[k]).id == listed[i].id,
{
    assert(is_last_delivered(rows, listed[i]));
    let k = choose|k: int| #[trigger] is_last_with_id(rows, k) && rows[k] == listed[i];
    assert(0 <= k < rows.len() && rows[k].id == listed[i].id);
}

/// An id that no delivered row carries is in no row of the listing.
pub proof fn lemma_undelivered_id_is_not_listed(
    listed: Seq<TodoView>,
    rows: Seq<TodoView>,
    id: int,
)
    requires
        is_listing_of(listed, rows),
        forall|k: int| 0 <= k < rows.len() ==> (#[trigger] rows[k]).id != id,
    ensures
        forall|i: int| 0 <= i < listed.len() ==> (#[trigger] listed[i]).id != id,
{
    assert forall|i: int| 0 <= i < listed.len() implies (#[trigger] listed[i]).id != id by {
        lemma_listed_ids_were_delivered(listed, rows, i);
    }
}

/// Every delivered row that no later row of its id supersedes is listed,
/// with every field as it was delivered.
pub proof fn lemma_last_rows_are_listed(listed: Seq<TodoView>, rows: Seq<TodoView>, k: int)
    requires
        is_listing_of(listed, rows),
        is_last_with_id(rows, k),
    ensures
        exists|i: int| 0 <= i < listed.len() && #[trigger] listed[i] == rows[k],
{
    assert(lists_id(listed, rows[k].id));
    let i = choose|i: int| 0 <= i < listed.len() && (#[trigger] listed[i]).id == rows[k].id;
    assert(is_last_delivered(rows, listed[i]));
    let m = choose|m: int| #[trigger] is_last_with_id(rows, m) && rows[m] == listed[i];
    assert(m == k) by {
        if m < k {
            assert(rows[k].id != rows[m].id);
        } else if k < m {
            assert(rows[m].id != rows[k].id);
        }
    }
    assert(0 <= i < listed.len() && listed[i] == rows[k]);
}

/// Rows delivered ascending by id are their own listing: the ordering step
/// changes nothing where the engine already honours the order it was asked
/// for.
pub proof fn lemma_ascending_rows_are_their_listing(rows: Seq<TodoView>)
    requires
        ascending_by_id(rows),
    ensures
        is_listing_of(rows, rows),
{
    assert forall|i: int| 0 <= i < rows.len() implies is_last_delivered(
        rows,
        #[trigger] rows[i],
    ) by {
        assert(is_last_with_id(rows, i));
    }
    assert forall|k: int| 0 <= k < rows.len() implies lists_id(rows, (#[trigger] rows[k]).id) by {
        assert(0 <= k < rows.len() && rows[k].id == rows[k].id);
    }
}

/// Two sequences that ascend by id and list the same ids have the same
/// length and the same id at each position.
proof fn lemma_same_ids(a: Seq<TodoView>, b: Seq<TodoView>)
    requires
        ascending_by_id(a),
        ascending_by_id(b),
        forall|i: int| 0 <= i < a.len() ==> lists_id(b, (#[trigger] a[i]).id),
        forall|j: int| 0 <= j < b.len() ==> lists_id(a, (#[trigger] b[j]).id),
    ensures
        a.len() == b.len(),
        forall|i: int| 0 <= i < a.len() ==> (#[trigger] a[i]).id == b[i].id,
    decreases a.len(),
{
    if a.len() == 0 {
        if b.len() > 0 {
            assert(lists_id(a, b[0].id));
        }
    } else {
        let la = a.len() - 1;
        assert(lists_id(b, a[la].id));
        let ja = choose|j: int| 0 <= j < b.len() && (#[trigger] b[j]).id == a[la].id;
        let lb = b.len() - 1;
        assert(lists_id(a, b[lb].id));
        let ib = choose|i: int| 0 <= i < a.len() && (#[trigger] a[i]).id == b[lb].id;
        assert(a[la].id <= b[lb].id) by {
            if ja < lb {
                assert(b[ja].id < b[lb].id);
            }
        }
        assert(b[lb].id <= a[la].id) by {
            if ib < la {
                assert(a[ib].id < a[la].id);
            }
        }
        let a0 = a.drop_last();
        let b0 = b.drop_last();
        assert forall|i: int| 0 <= i < a0.len() implies lists_id(b0, (#[trigger] a0[i]).id) by {
            assert(a0[i] == a[i]);
            assert(a[i].id < a[la].id);
            assert(lists_id(b, a[i].id));
            let j = choose|j: int| 0 <= j < b.len() && (#[trigger] b[j]).id == a[i].id;
            assert(0 <= j < b0.len() && b0[j].id == a0[i].id);
        }
        assert forall|j: int| 0 <= j < b0.len() implies lists_id(a0, (#[trigger] b0[j]).id) by {
            assert(b0[j] == b[j]);
            assert(b[j].id < b[lb].id);
            assert(lists_id(a, b[j].id));
            let i = choose|i: int| 0 <= i < a.len() && (#[trigger] a[i]).id == b[j].id;
            assert(0 <= i < a0.len() && a0[i].id == b0[j].id);
        }
        assert(ascending_by_id(a0)) by {
            assert forall|i: int, j: int| 0 <= i < j < a0.len() implies a0[i].id < a0[j].id by {
                assert(a[i].id < a[j].id);
            }
        }
        assert(ascending_by_id(b0)) by {
            assert forall|i: int, j: int| 0 <= i < j < b0.len() implies b0[i].id < b0[j].id by {
                assert(b[i].id < b[j].id);
            }
        }
        lemma_same_ids(a0, b0);
        assert forall|i: int| 0 <= i < a.len() implies (#[trigger] a[i]).id == b[i].id by {
            if i < la {
                assert(a0[i].id == b0[i].id);
            }
        }
    }
}

/// The delivered rows fix their listing: two listings of the same rows are
/// equal.
pub proof fn lemma_listing_is_unique(a: Seq<TodoView>, b: Seq<TodoView>, rows: Seq<TodoView>)
    requires
        is_listing_of(a, rows),
        is_listing_of(b, rows),
    ensures
        a == b,
{
    assert forall|i: int| 0 <= i < a.len() implies lists_id(b, (#[trigger] a[i]).id) by {
        lemma_listed_ids_were_delivered(a, rows, i);
        let k = choose|k: int| 0 <= k < rows.len() && (#[trigger] rows[k]).id == a[i].id;
        assert(lists_id(b, rows[k].id));
    }
    assert forall|j: int| 0 <= j < b.len() implies lists_id(a, (#[trigger] b[j]).id) by {
        lemma_listed_ids_were_delivered(b, rows, j);
        let k = choose|k: int| 0 <= k < rows.len() && (#[trigger] rows[k]).id == b[j].id;
        assert(lists_id(a, rows[k].id));
    }
    lemma_same_ids(a, b);
    assert forall|i: int| 0 <= i < a.len() implies a[i] == b[i] by {
        assert(is_last_delivered(rows, a[i]));
        assert(is_last_delivered(rows, b[i]));
        let ka = choose|k: int| #[trigger] is_last_with_id(rows, k) && rows[k] == a[i];
        let kb = choose|k: int| #[trigger] is_last_with_id(rows, k) && rows[k] == b[i];
        assert(a[i].id == b[i].id);
        if ka < kb {
            assert(rows[kb].id != rows[ka].id);
        } else if kb < ka {
            assert(rows[ka].id != rows[kb].id);
        }
    }
    assert(a =~= b);
}

/// First position of `listed` whose id is not below `id`, sought from the
/// end: rows that arrive ascending are placed at once.
fn position_for(listed: &Vec<Todo>, id: i64) -> (at: usize)
    requires
        ascending_by_id(views(listed@)),
    ensures
        at <= listed@.len(),
        forall|i: int| 0 <= i < at ==> (#[trigger] views(listed@)[i]).id < id,
        forall|i: int| at <= i < listed@.len() ==> (#[trigger] views(listed@)[i]).id >= id,
{
    let mut at: usize = listed.len();
    while at > 0 && listed[at - 1].id >= id
        invariant
            at <= listed@.len(),
            forall|i: int| at <= i < listed@.len() ==> (#[trigger] views(listed@)[i]).id >= id,
        decreases at,
    {
        at -= 1;
    }
    proof {
        assert forall|i: int| 0 <= i < at implies (#[trigger] views(listed@)[i]).id < id by {
            if i < at - 1 {
                assert(views(listed@)[i].id < views(listed@)[at - 1].id);
            }
        }
    }
    at
}

/// Orders delivered rows into a listing: one row per id, ascending by id; of
/// several rows with one id the last delivered stays. Rows are carried over
/// unmodified, and rows delivered ascending come back as they are.
pub fn collect_rows(rows: Vec<Todo>) -> (listed: Vec<Todo>)
    ensures
        is_listing_of(views(listed@), views(rows@)),
        ascending_by_id(views(listed@)),
        ascending_by_id(views(rows@)) ==> views(listed@) == views(rows@),
        listed@.len() <= rows@.len(),
{
    let ghost all = views(rows@);
    let mut listed: Vec<Todo> = Vec::new();
    proof {
        assert(all.take(0) =~= Seq::<TodoView>::empty());
    }
    for row in it: rows.into_iter()
        invariant
            it.seq() == rows@,
            all == views(rows@),
            listed@.len() <= it.index(),
            is_listing_of(views(listed@), all.take(it.index() as int)),
    {
        let ghost before = views(listed@);
        let ghost n = it.index() as int;
        assert(all.take(n + 1) =~= all.take(n).push(row@));
        let at = position_for(&listed, row.id);
        if at < listed.len() && listed[at].id == row.id {
            proof {
                assert(before[at as int].id == row.id);
                lemma_replace_row(before, all.take(n), row@, at as int);
            }
            listed.set(at, row);
            assert(views(listed@) =~= before.update(at as int, row@));
        } else {
            proof {
                assert forall|i: int| at <= i < before.len() implies (#[trigger] before[i]).id
                    > row.id by {
                    if i > at {
                        assert(before[at as int].id < before[i].id);
                    }
                }
                lemma_place_row(before, all.take(n), row@, at as int);
            }
            listed.insert(at, row);
            assert(views(listed@) =~= before.insert(at as int, row@));
        }
    }
    proof {
        assert(all.take(all.len() as int) =~= all);
        if ascending_by_id(all) {
            lemma_ascending_rows_are_their_listing(all);
            lemma_listing_is_unique(views(listed@), all, all);
        }
    }
    listed
}

} // verus!
