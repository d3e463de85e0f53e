//! How SQLite numbers the rows of a table, and which reply says that a request went
//! through. This is a model: nothing here is proved of SQLite itself, and
//! `tests/sqlite.rs` tries it.

use vstd::prelude::*;

verus! {

use crate::sql::{ReplyView, RequestView};

/// The reply says that the request went through. A failure never does, nor does a reply
/// to another kind of request.
pub open spec fn grants<E>(request: RequestView, reply: ReplyView<E>) -> bool {
    match request {
        RequestView::Begin => reply is Begun,
        RequestView::Execute(_) => reply is Executed,
        RequestView::FetchRowid(_) => reply is Rowid,
        RequestView::FetchQueued(_) => reply is Queued,
        RequestView::Commit => reply is Committed,
    }
}

/// The row id that a row gets which is inserted without one: the largest there is plus
/// one, and one in an empty table. Where the largest is taken that there can be, it is
/// any that is free.
pub open spec fn is_next_rowid<R>(table: Map<i64, R>, rowid: i64) -> bool {
    if table.contains_key(i64::MAX) {
        !table.contains_key(rowid)
    } else {
        &&& forall|other: i64| #[trigger] table.contains_key(other) ==> other < rowid
        &&& {
            ||| i64::MIN < rowid && table.contains_key((rowid - 1) as i64)
            ||| rowid == 1 && forall|other: i64| !#[trigger] table.contains_key(other)
        }
    }
}

/// One row has been added to a table.
pub open spec fn row_added<R>(before: Map<i64, R>, after: Map<i64, R>, row: R) -> bool {
    exists|rowid: i64|
        is_next_rowid(before, rowid) && after == #[trigger] before.insert(rowid, row)
}

/// Rows have been added to a table, one by one.
pub open spec fn rows_added<R>(before: Map<i64, R>, after: Map<i64, R>, rows: Seq<R>) -> bool
    decreases rows.len(),
{
    if rows.len() == 0 {
        after == before
    } else {
        exists|between: Map<i64, R>|
            rows_added(before, between, rows.drop_last()) && #[trigger] row_added(
                between,
                after,
                rows.last(),
            )
    }
}

/// Adding a row takes no row away and changes none; the row added is the only new one.
pub proof fn lemma_row_added<R>(before: Map<i64, R>, after: Map<i64, R>, row: R)
    requires
        row_added(before, after, row),
    ensures
        before.submap_of(after),
        forall|rowid: i64| #[trigger]
            after.contains_key(rowid) && !before.contains_key(rowid) ==> after[rowid] == row,
        exists|rowid: i64| !before.contains_key(rowid) && #[trigger] after.contains_key(rowid),
        before.dom().finite() ==> after.dom().finite() && after.dom().len() == before.dom().len()
            + 1,
{
    let rowid = choose|rowid: i64|
        is_next_rowid(before, rowid) && after == #[trigger] before.insert(rowid, row);
    assert(!before.contains_key(rowid));
    assert(after.contains_key(rowid));
    assert(after.dom() =~= before.dom().insert(rowid));
}

/// Adding rows takes no row away and changes none; every new row is one of those added,
/// and there are as many new ones as were added.
pub proof fn lemma_rows_added<R>(before: Map<i64, R>, after: Map<i64, R>, rows: Seq<R>)
    requires
        rows_added(before, after, rows),
    ensures
        before.submap_of(after),
        forall|rowid: i64| #[trigger]
            after.contains_key(rowid) && !before.contains_key(rowid) ==> exists|i: int|
                0 <= i < rows.len() && after[rowid] == #[trigger] rows[i],
        before.dom().finite() ==> after.dom().finite() && after.dom().len() == before.dom().len()
            + rows.len(),
    decreases rows.len(),
{
    if rows.len() > 0 {
        let between = choose|between: Map<i64, R>|
            rows_added(before, between, rows.drop_last()) && #[trigger] row_added(
                between,
                after,
                rows.last(),
            );
        lemma_rows_added(before, between, rows.drop_last());
        lemma_row_added(between, after, rows.last());
        assert forall|rowid: i64| #[trigger]
            after.contains_key(rowid) && !before.contains_key(rowid) implies exists|i: int|
            0 <= i < rows.len() && after[rowid] == #[trigger] rows[i] by {
            if between.contains_key(rowid) {
                let i = choose|i: int|
                    0 <= i < rows.len() - 1 && between[rowid] == #[trigger] rows.drop_last()[i];
                assert(after[rowid] == rows[i]);
            } else {
                assert(after[rowid] == rows[rows.len() - 1]);
            }
        }
    }
}

} // verus!
