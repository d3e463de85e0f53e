//! What holds of the queue of missing tracks, if SQLite behaves as the model in
//! [`queue_model`](crate::queue_model) says.

use vstd::prelude::*;

verus! {

use vstd::set_lib::{lemma_int_range, lemma_set_subset_finite, set_int_range};

use crate::clock::clock_gave;
use crate::ids::is_object_id;
use crate::queue::{
    enqueue_statement,
    queue_missing_track,
    queue_missing_track_at,
    remove_queued_track,
    reset_queued_track,
    taking_after,
    taking_request,
    Taking,
    TakingView,
    ENQUEUE,
    MARK_PROCESSING,
    NEXT_PENDING,
    REMOVE,
    RESET,
};
use crate::queue_model::{
    counted_entry,
    has_track,
    is_pending,
    new_entry,
    op_effect,
    op_statement,
    passes_at,
    queue_effect,
    queue_left,
    queue_passes,
    selects,
    taking_after_all,
    taking_passes,
    tracks_distinct,
    Entry,
    EntryStatus,
    QueueOp,
};
use crate::sql::{QueuedTrack, QueuedView, ReplyView, Request, Statement};
use crate::tables::{grants, is_next_rowid, lemma_row_added, row_added};

/// How long the texts of the statements on the queue are. No two are of one length.
pub proof fn lemma_queue_texts()
    ensures
        ENQUEUE@.len() == 112,
        NEXT_PENDING@.len() == 96,
        MARK_PROCESSING@.len() == 115,
        REMOVE@.len() == 48,
        RESET@.len() == 66,
{
    reveal_strlit(
        "INSERT OR IGNORE INTO missing_tracks_queue (track_id, enqueued_at, status, attempts) VALUES (?, ?, 'pending', 0)",
    );
    reveal_strlit(
        "SELECT rowid, track_id FROM missing_tracks_queue WHERE status = 'pending' ORDER BY rowid LIMIT 1",
    );
    reveal_strlit(
        "UPDATE missing_tracks_queue SET status = 'processing', attempts = attempts + 1, last_attempt_at = ? WHERE rowid = ?",
    );
    reveal_strlit("DELETE FROM missing_tracks_queue WHERE rowid = ?");
    reveal_strlit("UPDATE missing_tracks_queue SET status = 'pending' WHERE rowid = ?");
}

/// Every change is made by its statement, as the statement's text and values tell it.
/// Queueing adds one entry, under the very id and with the very time, unless the track is
/// there already. Marking changes the one entry that has the row id: it is being
/// processed, has one attempt more, and was last tried at the time given. Removing takes
/// that entry out, and resetting makes it pending and changes nothing else of it.
pub proof fn law_statements_do_what_they_are_for(
    op: QueueOp,
    before: Map<i64, Entry>,
    after: Map<i64, Entry>,
)
    ensures
        queue_effect(op_statement(op), before, after) <==> match op {
            QueueOp::Enqueue { track_id, now } => if has_track(before, track_id) {
                after == before
            } else {
                row_added(
                    before,
                    after,
                    Entry {
                        track_id,
                        enqueued_at: now,
                        status: EntryStatus::Pending,
                        attempts: 0,
                        last_attempt_at: None,
                    },
                )
            },
            QueueOp::Mark { rowid, now } => after == if before.contains_key(rowid) {
                before.insert(
                    rowid,
                    Entry {
                        track_id: before[rowid].track_id,
                        enqueued_at: before[rowid].enqueued_at,
                        status: EntryStatus::Processing,
                        attempts: before[rowid].attempts + 1,
                        last_attempt_at: Some(now),
                    },
                )
            } else {
                before
            },
            QueueOp::Remove { rowid } => after == before.remove(rowid),
            QueueOp::Reset { rowid } => after == if before.contains_key(rowid) {
                before.insert(
                    rowid,
                    Entry {
                        track_id: before[rowid].track_id,
                        enqueued_at: before[rowid].enqueued_at,
                        status: EntryStatus::Pending,
                        attempts: before[rowid].attempts,
                        last_attempt_at: before[rowid].last_attempt_at,
                    },
                )
            } else {
                before
            },
        },
{
    lemma_queue_texts();
}

/// The statement that `queue_missing_track_at` gives for an id and a time brings that id
/// into the queue, entered at that time, pending and never tried; a track that is there
/// already stays as it is. Nothing else changes.
pub proof fn law_queued_id_is_the_one_asked_for(
    track_id: &str,
    now: i64,
    insert: Statement,
    before: Map<i64, Entry>,
    after: Map<i64, Entry>,
)
    requires
        call_ensures(queue_missing_track_at, (track_id, now), insert),
        queue_effect(insert@, before, after),
    ensures
        has_track(after, track_id@),
        before.submap_of(after),
        has_track(before, track_id@) ==> after == before,
        forall|rowid: i64| #[trigger]
            after.contains_key(rowid) && !before.contains_key(rowid) ==> after[rowid] == (Entry {
                track_id: track_id@,
                enqueued_at: now,
                status: EntryStatus::Pending,
                attempts: 0,
                last_attempt_at: None,
            }),
        is_object_id(track_id@) ==> forall|rowid: i64| #[trigger]
            after.contains_key(rowid) && !before.contains_key(rowid) ==> is_object_id(
                after[rowid].track_id,
            ),
{
    law_queueing_enters_the_id(track_id@, now, before, after);
}

/// What `queue_missing_track` gives brings the id into the queue too, entered at a time
/// that the clock has given.
pub proof fn law_queued_now_is_the_one_asked_for(
    track_id: &str,
    insert: Statement,
    before: Map<i64, Entry>,
    after: Map<i64, Entry>,
)
    requires
        call_ensures(queue_missing_track, (track_id,), insert),
        queue_effect(insert@, before, after),
    ensures
        has_track(after, track_id@),
        before.submap_of(after),
        forall|rowid: i64| #[trigger]
            after.contains_key(rowid) && !before.contains_key(rowid) ==> {
                &&& after[rowid].track_id == track_id@
                &&& after[rowid].enqueued_at >= 0
                &&& clock_gave(after[rowid].enqueued_at)
                &&& after[rowid].status is Pending
                &&& after[rowid].attempts == 0
                &&& after[rowid].last_attempt_at is None
            },
{
    let now = choose|now: i64|
        0 <= now && clock_gave(now) && insert@ == #[trigger] enqueue_statement(track_id@, now);
    law_queueing_enters_the_id(track_id@, now, before, after);
}

/// The statement that enters an id brings that id into the queue and nothing else.
pub proof fn law_queueing_enters_the_id(
    track_id: Seq<char>,
    now: i64,
    before: Map<i64, Entry>,
    after: Map<i64, Entry>,
)
    requires
        queue_effect(enqueue_statement(track_id, now), before, after),
    ensures
        has_track(after, track_id),
        before.submap_of(after),
        has_track(before, track_id) ==> after == before,
        forall|rowid: i64| #[trigger]
            after.contains_key(rowid) && !before.contains_key(rowid) ==> after[rowid] == (Entry {
                track_id,
                enqueued_at: now,
                status: EntryStatus::Pending,
                attempts: 0,
                last_attempt_at: None,
            }),
{
    law_statements_do_what_they_are_for(QueueOp::Enqueue { track_id, now }, before, after);
    if !has_track(before, track_id) {
        lemma_row_added(before, after, new_entry(track_id, now));
        let rowid = choose|rowid: i64|
            !before.contains_key(rowid) && #[trigger] after.contains_key(rowid);
        assert(after.contains_key(rowid) && after[rowid].track_id == track_id);
    }
}

/// The statement that `remove_queued_track` gives for a row id takes that entry out of
/// the queue and leaves every other as it is.
pub proof fn law_removal_takes_out_its_row(
    rowid: i64,
    delete: Statement,
    before: Map<i64, Entry>,
    after: Map<i64, Entry>,
)
    requires
        call_ensures(remove_queued_track, (rowid,), delete),
        queue_effect(delete@, before, after),
    ensures
        !after.contains_key(rowid),
        forall|other: i64|
            other != rowid ==> #[trigger] after.contains_key(other) == before.contains_key(other),
        forall|other: i64| #[trigger] after.contains_key(other) ==> after[other] == before[other],
{
    law_statements_do_what_they_are_for(QueueOp::Remove { rowid }, before, after);
}

/// The statement that `reset_queued_track` gives for a row id makes that entry pending
/// again, with its id, its times and its attempts as they were, and leaves every other as
/// it is.
pub proof fn law_reset_makes_its_row_pending(
    rowid: i64,
    update: Statement,
    before: Map<i64, Entry>,
    after: Map<i64, Entry>,
)
    requires
        call_ensures(reset_queued_track, (rowid,), update),
        queue_effect(update@, before, after),
    ensures
        forall|other: i64| #[trigger] after.contains_key(other) == before.contains_key(other),
        forall|other: i64|
            #![trigger after[other]]
            before.contains_key(other) && other != rowid ==> after[other] == before[other],
        before.contains_key(rowid) ==> {
            &&& after[rowid].status is Pending
            &&& after[rowid].track_id == before[rowid].track_id
            &&& after[rowid].enqueued_at == before[rowid].enqueued_at
            &&& after[rowid].attempts == before[rowid].attempts
            &&& after[rowid].last_attempt_at == before[rowid].last_attempt_at
        },
{
    law_statements_do_what_they_are_for(QueueOp::Reset { rowid }, before, after);
}

/// What `request` gives for an entry that has been selected marks that very entry, at the
/// time at which it was selected, and no other.
pub proof fn law_marking_marks_the_selected_entry<E>(
    state: Taking<E>,
    request: Option<Request>,
    before: Map<i64, Entry>,
    after: Map<i64, Entry>,
)
    requires
        call_ensures(Taking::<E>::request, (&state,), request),
        state is Marking,
    ensures
        request matches Some(Request::Execute(update)) && (queue_effect(update@, before, after)
            ==> {
            let (item, now) = (state->item, state->Marking_now);
            &&& forall|other: i64| #[trigger]
                after.contains_key(other) == before.contains_key(other)
            &&& forall|other: i64|
                #![trigger after[other]]
                before.contains_key(other) && other != item.rowid ==> after[other]
                    == before[other]
            &&& before.contains_key(item.rowid) ==> after[item.rowid] == (Entry {
                track_id: before[item.rowid].track_id,
                enqueued_at: before[item.rowid].enqueued_at,
                status: EntryStatus::Processing,
                attempts: before[item.rowid].attempts + 1,
                last_attempt_at: Some(now),
            })
        }),
{
    law_statements_do_what_they_are_for(
        QueueOp::Mark { rowid: state->item.rowid, now: state->Marking_now },
        before,
        after,
    );
}

/// A statement tells which change it is: no two changes have the same text and values.
pub proof fn law_statements_are_distinct(a: QueueOp, b: QueueOp)
    requires
        op_statement(a) == op_statement(b),
    ensures
        a == b,
{
    reveal_strlit(
        "INSERT OR IGNORE INTO missing_tracks_queue (track_id, enqueued_at, status, attempts) VALUES (?, ?, 'pending', 0)",
    );
    reveal_strlit(
        "UPDATE missing_tracks_queue SET status = 'processing', attempts = attempts + 1, last_attempt_at = ? WHERE rowid = ?",
    );
    reveal_strlit("DELETE FROM missing_tracks_queue WHERE rowid = ?");
    reveal_strlit("UPDATE missing_tracks_queue SET status = 'pending' WHERE rowid = ?");
    let (x, y) = (op_statement(a), op_statement(b));
    assert(x.sql[0] == y.sql[0]);
    assert(x.params.len() == y.params.len());
    assert(x.params[0] == y.params[0]);
    if x.params.len() == 2 {
        assert(x.params[1] == y.params[1]);
    }
}

/// No statement ever brings a track into the queue a second time.
pub proof fn law_tracks_stay_distinct(
    op: QueueOp,
    before: Map<i64, Entry>,
    after: Map<i64, Entry>,
)
    requires
        tracks_distinct(before),
        op_effect(op, before, after),
    ensures
        tracks_distinct(after),
{
    law_statements_do_what_they_are_for(op, before, after);
    match op {
        QueueOp::Enqueue { track_id, now } => {
            if !has_track(before, track_id) {
                let rowid = choose|rowid: i64|
                    is_next_rowid(before, rowid) && after == #[trigger] before.insert(
                        rowid,
                        new_entry(track_id, now),
                    );
                assert forall|a: i64, b: i64| #[trigger]
                    after.contains_key(a) && #[trigger] after.contains_key(b) && after[a].track_id
                        == after[b].track_id implies a == b by {
                    assert(a != rowid ==> before.contains_key(a));
                    assert(b != rowid ==> before.contains_key(b));
                }
            }
        },
        _ => {
            assert forall|a: i64, b: i64| #[trigger]
                after.contains_key(a) && #[trigger] after.contains_key(b) && after[a].track_id
                    == after[b].track_id implies a == b by {
                assert(before.contains_key(a) && before.contains_key(b));
            }
        },
    }
}

/// A track that has been queued is in the queue, as a new pending entry or as the one
/// that was there, and queueing it again changes nothing.
pub proof fn law_queueing_is_idempotent(
    track_id: Seq<char>,
    first_time: i64,
    second_time: i64,
    before: Map<i64, Entry>,
    once: Map<i64, Entry>,
    twice: Map<i64, Entry>,
)
    requires
        op_effect(QueueOp::Enqueue { track_id, now: first_time }, before, once),
        op_effect(QueueOp::Enqueue { track_id, now: second_time }, once, twice),
    ensures
        has_track(once, track_id),
        twice == once,
        forall|rowid: i64| #[trigger]
            before.contains_key(rowid) ==> once.contains_key(rowid) && once[rowid] == before[rowid],
        forall|rowid: i64| #[trigger]
            once.contains_key(rowid) && !before.contains_key(rowid) ==> once[rowid] == new_entry(
                track_id,
                first_time,
            ),
{
    let first = QueueOp::Enqueue { track_id, now: first_time };
    let second = QueueOp::Enqueue { track_id, now: second_time };
    law_statements_do_what_they_are_for(first, before, once);
    law_statements_do_what_they_are_for(second, once, twice);
    if !has_track(before, track_id) {
        let rowid = choose|rowid: i64|
            is_next_rowid(before, rowid) && once == #[trigger] before.insert(
                rowid,
                new_entry(track_id, first_time),
            );
        assert(once.contains_key(rowid) && once[rowid].track_id == track_id);
    }
}

/// An entry that has been taken is not pending, and what is selected next stands
/// behind it: entries are taken in the order of their row ids, and none is taken twice
/// unless it is reset in between.
pub proof fn law_entries_are_taken_in_order(
    queue: Map<i64, Entry>,
    item: QueuedView,
    now: i64,
    after: Map<i64, Entry>,
    next: Option<QueuedView>,
)
    requires
        selects(queue, Some(item)),
        op_effect(QueueOp::Mark { rowid: item.rowid, now }, queue, after),
        selects(after, next),
    ensures
        !is_pending(after, item.rowid),
        after[item.rowid].attempts == queue[item.rowid].attempts + 1,
        forall|other: i64|
            other != item.rowid ==> #[trigger] is_pending(after, other) == is_pending(queue, other),
        next is Some ==> item.rowid < next->0.rowid,
{
    law_statements_do_what_they_are_for(QueueOp::Mark { rowid: item.rowid, now }, queue, after);
    if next is Some {
        assert(is_pending(after, next->0.rowid));
        assert(is_pending(queue, next->0.rowid));
    }
}

/// Taking an entry and removing it leaves the queue without that entry and otherwise
/// as it was; the track can then be queued anew.
pub proof fn law_take_then_remove(
    queue: Map<i64, Entry>,
    item: QueuedView,
    now: i64,
    taken: Map<i64, Entry>,
    after: Map<i64, Entry>,
)
    requires
        tracks_distinct(queue),
        selects(queue, Some(item)),
        op_effect(QueueOp::Mark { rowid: item.rowid, now }, queue, taken),
        op_effect(QueueOp::Remove { rowid: item.rowid }, taken, after),
    ensures
        after == queue.remove(item.rowid),
        !has_track(after, item.track_id),
{
    law_statements_do_what_they_are_for(QueueOp::Mark { rowid: item.rowid, now }, queue, taken);
    law_statements_do_what_they_are_for(QueueOp::Remove { rowid: item.rowid }, taken, after);
    assert(after =~= queue.remove(item.rowid));
    assert(queue.contains_key(item.rowid));
    if has_track(after, item.track_id) {
        let other = choose|rowid: i64| #[trigger]
            after.contains_key(rowid) && after[rowid].track_id == item.track_id;
        assert(queue.contains_key(other));
    }
}

/// Taking an entry and resetting it leaves the queue as it was, but for the attempt
/// that the entry has counted; and the entry is the next to be taken again.
pub proof fn law_take_then_reset(
    queue: Map<i64, Entry>,
    item: QueuedView,
    now: i64,
    taken: Map<i64, Entry>,
    after: Map<i64, Entry>,
)
    requires
        selects(queue, Some(item)),
        op_effect(QueueOp::Mark { rowid: item.rowid, now }, queue, taken),
        op_effect(QueueOp::Reset { rowid: item.rowid }, taken, after),
    ensures
        after == queue.insert(item.rowid, counted_entry(queue[item.rowid], now)),
        selects(after, Some(item)),
{
    law_statements_do_what_they_are_for(QueueOp::Mark { rowid: item.rowid, now }, queue, taken);
    law_statements_do_what_they_are_for(QueueOp::Reset { rowid: item.rowid }, taken, after);
    assert(after =~= queue.insert(item.rowid, counted_entry(queue[item.rowid], now)));
    assert forall|other: i64| #[trigger] is_pending(after, other) implies item.rowid <= other by {
        assert(is_pending(queue, other));
    }
}

/// The entry was selected by the reply at `select`, and marked, with the time of that
/// reply, by the request that the reply at `mark` granted.
pub open spec fn selected_and_marked<E>(
    replies: Seq<(ReplyView<E>, i64)>,
    item: QueuedView,
    select: int,
    mark: int,
) -> bool {
    &&& 0 <= select < mark < replies.len()
    &&& taking_after_all(replies.take(select)) == TakingView::<E>::Selecting
    &&& replies[select].0 == ReplyView::<E>::Queued(Some(item))
    &&& taking_after_all(replies.take(mark)) == (TakingView::<E>::Marking {
        item,
        now: replies[select].1,
    })
    &&& replies[mark].0 == ReplyView::<E>::Executed
}

spec fn selected<E>(
    replies: Seq<(ReplyView<E>, i64)>,
    item: QueuedView,
    now: i64,
    select: int,
) -> bool {
    &&& 0 <= select < replies.len()
    &&& taking_after_all(replies.take(select)) == TakingView::<E>::Selecting
    &&& replies[select].0 == ReplyView::<E>::Queued(Some(item))
    &&& replies[select].1 == now
}

proof fn lemma_marking_was_selected<E>(
    replies: Seq<(ReplyView<E>, i64)>,
    item: QueuedView,
    now: i64,
) -> (select: int)
    requires
        taking_after_all(replies) == (TakingView::<E>::Marking { item, now }),
    ensures
        selected(replies, item, now, select),
    decreases replies.len(),
{
    let earlier = replies.drop_last();
    let last = replies.len() - 1;
    assert(replies.take(last) =~= earlier);
    if taking_after_all(earlier) == TakingView::<E>::Selecting {
        last
    } else {
        let select = lemma_marking_was_selected(earlier, item, now);
        assert(replies.take(select) =~= earlier.take(select));
        select
    }
}

/// Whatever the replies, an entry that is about to be committed as taken, or that is
/// taken, has been selected and then marked as being processed.
pub proof fn law_taken_entry_was_marked<E>(replies: Seq<(ReplyView<E>, i64)>, item: QueuedView)
    requires
        ({
            let state = taking_after_all(replies);
            ||| state == (TakingView::<E>::Committing { taken: Some(item) })
            ||| state == (TakingView::<E>::Taken { taken: Some(item) })
        }),
    ensures
        exists|select: int, mark: int| selected_and_marked(replies, item, select, mark),
    decreases replies.len(),
{
    let earlier = replies.drop_last();
    let last = replies.len() - 1;
    assert(replies.take(last) =~= earlier);
    match taking_after_all(earlier) {
        TakingView::Marking { now, .. } => {
            let select = lemma_marking_was_selected(earlier, item, now);
            assert(replies.take(select) =~= earlier.take(select));
            assert(selected_and_marked(replies, item, select, last));
        },
        _ => {
            law_taken_entry_was_marked(earlier, item);
            let (select, mark) = choose|select: int, mark: int|
                selected_and_marked(earlier, item, select, mark);
            assert(replies.take(select) =~= earlier.take(select));
            assert(replies.take(mark) =~= earlier.take(mark));
            assert(selected_and_marked(replies, item, select, mark));
        },
    }
}

/// A transaction that has failed, or that has taken its entry, stays as it is and asks
/// for nothing any more; a failure before that ends it, with its error.
pub proof fn law_taking_ends<E>(state: TakingView<E>, reply: ReplyView<E>, now: i64, error: E)
    ensures
        taking_request(state) is None ==> taking_after(state, reply, now) == state,
        taking_request(state) is Some ==> taking_after(state, ReplyView::Failed(error), now) == (
        TakingView::Failed { error }),
{
}

/// A reply that grants what the transaction asks for leads on, and only such a reply or a
/// failure changes anything: the transaction opens, selects, marks the entry that was
/// selected if there was one, commits, and hands out that entry.
pub proof fn law_granted_take_goes_on<E>(state: TakingView<E>, reply: ReplyView<E>, now: i64)
    requires
        taking_request(state) is Some,
    ensures
        ({
            let next = taking_after(state, reply, now);
            if grants(taking_request(state)->0, reply) {
                match state {
                    TakingView::Opening => next == TakingView::<E>::Selecting,
                    TakingView::Selecting => match reply->Queued_0 {
                        Some(item) => next == (TakingView::<E>::Marking { item, now }),
                        None => next == (TakingView::<E>::Committing { taken: None }),
                    },
                    TakingView::Marking { item, .. } => next == (TakingView::<E>::Committing {
                        taken: Some(item),
                    }),
                    TakingView::Committing { taken } => next == (TakingView::<E>::Taken { taken }),
                    _ => false,
                }
            } else {
                match reply {
                    ReplyView::Failed(error) => next == (TakingView::<E>::Failed { error }),
                    _ => next == state,
                }
            }
        }),
{
}

/// A track that is queued for the first time gets one entry: pending, never tried, with
/// a row id above all that are there, and the first row id in an empty queue. No other
/// entry changes. So it waits behind all that wait: as long as one of them is pending,
/// the next entry is the one that it was before, and the new one is selected only where
/// it alone is pending. (A queue that holds the largest row id there can be is left
/// out: there the new row id is any that is free.)
pub proof fn law_new_entry_waits_behind_all(
    track_id: Seq<char>,
    now: i64,
    before: Map<i64, Entry>,
    after: Map<i64, Entry>,
) -> (rowid: i64)
    requires
        !has_track(before, track_id),
        !before.contains_key(i64::MAX),
        op_effect((QueueOp::Enqueue { track_id, now }), before, after),
    ensures
        after == before.insert(rowid, new_entry(track_id, now)),
        forall|other: i64| #[trigger] before.contains_key(other) ==> other < rowid,
        before == Map::<i64, Entry>::empty() ==> rowid == 1,
        before != Map::<i64, Entry>::empty() ==> before.contains_key((rowid - 1) as i64),
        is_pending(after, rowid),
        forall|item: QueuedView| #[trigger]
            selects(before, Some(item)) ==> selects(after, Some(item)),
        forall|item: QueuedView| #[trigger]
            selects(after, Some(item)) && item.rowid == rowid ==> selects(before, None),
{
    law_statements_do_what_they_are_for(QueueOp::Enqueue { track_id, now }, before, after);
    let rowid = choose|rowid: i64|
        is_next_rowid(before, rowid) && after == #[trigger] before.insert(
            rowid,
            new_entry(track_id, now),
        );
    if before != Map::<i64, Entry>::empty() {
        assert(!(before =~= Map::<i64, Entry>::empty()));
    }
    assert forall|other: i64| other != rowid implies #[trigger] is_pending(after, other)
        == is_pending(before, other) by {}
    assert forall|item: QueuedView| #[trigger] selects(before, Some(item)) implies selects(
        after,
        Some(item),
    ) by {
        assert(is_pending(before, item.rowid));
        assert(before.contains_key(item.rowid));
        assert(is_pending(after, item.rowid));
        assert forall|other: i64| #[trigger] is_pending(after, other) implies item.rowid
            <= other by {
            assert(other == rowid || is_pending(before, other));
        }
    }
    assert forall|item: QueuedView| #[trigger]
        selects(after, Some(item)) && item.rowid == rowid implies selects(before, None) by {
        assert forall|other: i64| !#[trigger] is_pending(before, other) by {
            if is_pending(before, other) {
                assert(before.contains_key(other));
                assert(is_pending(after, other));
            }
        }
    }
    rowid
}

/// First come, first served. An entry that waits when another is queued is served before
/// it: whatever statements follow, by the time that the later entry is selected the
/// earlier one has been marked or removed.
pub proof fn law_first_come_first_served(
    before: Map<i64, Entry>,
    waiting: i64,
    track_id: Seq<char>,
    now: i64,
    later: i64,
    ops: Seq<QueueOp>,
    queues: Seq<Map<i64, Entry>>,
    item: QueuedView,
)
    requires
        is_pending(before, waiting),
        !before.contains_key(i64::MAX),
        is_next_rowid(before, later),
        queue_passes(ops, queues),
        queues[0] == before.insert(later, new_entry(track_id, now)),
        selects(queues.last(), Some(item)),
        item.rowid == later,
    ensures
        exists|k: int| 0 <= k < ops.len() && serves(#[trigger] ops[k], waiting),
{
    assert(before.contains_key(waiting));
    assert(is_pending(queues[0], waiting));
    if forall|k: int| 0 <= k < ops.len() ==> !serves(#[trigger] ops[k], waiting) {
        lemma_unserved_waits(ops, queues, waiting, ops.len() as int);
    }
}

/// The statement marks the entry or removes it.
pub open spec fn serves(op: QueueOp, rowid: i64) -> bool {
    match op {
        QueueOp::Mark { rowid: marked, .. } => marked == rowid,
        QueueOp::Remove { rowid: removed } => removed == rowid,
        _ => false,
    }
}

proof fn lemma_unserved_waits(
    ops: Seq<QueueOp>,
    queues: Seq<Map<i64, Entry>>,
    waiting: i64,
    k: int,
)
    requires
        queue_passes(ops, queues),
        is_pending(queues[0], waiting),
        forall|j: int| 0 <= j < ops.len() ==> !serves(#[trigger] ops[j], waiting),
        0 <= k <= ops.len(),
    ensures
        is_pending(queues[k], waiting),
    decreases k,
{
    if k > 0 {
        lemma_unserved_waits(ops, queues, waiting, k - 1);
        assert(!serves(ops[k - 1], waiting));
        assert(passes_at(ops, queues, k - 1));
        law_statements_do_what_they_are_for(ops[k - 1], queues[k - 1], queues[k]);
    }
}

/// Taking an entry is all or nothing, whatever the replies. A transaction that has taken
/// an entry leaves the queue with that entry marked, with the time at which it was
/// selected, and it was the next one; one that has found none leaves the queue as it
/// was, and nothing was pending; one that has failed, or is dropped on the way, leaves
/// the queue as it was.
pub proof fn law_taking_is_all_or_nothing<E>(
    replies: Seq<(ReplyView<E>, i64)>,
    queues: Seq<Map<i64, Entry>>,
)
    requires
        taking_passes(replies, queues),
    ensures
        match taking_after_all(replies) {
            TakingView::Taken { taken: Some(item) } => {
                &&& selects(queues[0], Some(item))
                &&& marked_when_selected(replies, item, queues[0], queue_left(replies, queues))
            },
            TakingView::Taken { taken: None } => {
                &&& selects(queues[0], None)
                &&& queue_left(replies, queues) == queues[0]
            },
            _ => queue_left(replies, queues) == queues[0],
        },
{
    lemma_taking_so_far(replies, queues);
}

/// The entry has been marked, with the time of the reply that selected it, and nothing
/// else has changed.
pub open spec fn marked_when_selected<E>(
    replies: Seq<(ReplyView<E>, i64)>,
    item: QueuedView,
    before: Map<i64, Entry>,
    after: Map<i64, Entry>,
) -> bool {
    exists|i: int|
        {
            &&& 0 <= i < replies.len()
            &&& taking_after_all(replies.take(i)) == TakingView::<E>::Selecting
            &&& (#[trigger] replies[i]).0 == ReplyView::<E>::Queued(Some(item))
            &&& before.contains_key(item.rowid)
            &&& after == before.insert(
                item.rowid,
                Entry {
                    track_id: item.track_id,
                    enqueued_at: before[item.rowid].enqueued_at,
                    status: EntryStatus::Processing,
                    attempts: before[item.rowid].attempts + 1,
                    last_attempt_at: Some(replies[i].1),
                },
            )
        }
}

proof fn lemma_taking_so_far<E>(
    replies: Seq<(ReplyView<E>, i64)>,
    queues: Seq<Map<i64, Entry>>,
)
    requires
        taking_passes(replies, queues),
    ensures
        queues.len() == replies.len() + 1,
        match taking_after_all(replies) {
            TakingView::Opening => queues.last() == queues[0],
            TakingView::Selecting => queues.last() == queues[0],
            TakingView::Marking { item, .. } => {
                &&& selects(queues[0], Some(item))
                &&& queues.last() == queues[0]
            },
            TakingView::Committing { taken: Some(item) } => {
                &&& selects(queues[0], Some(item))
                &&& marked_when_selected(replies, item, queues[0], queues.last())
            },
            TakingView::Taken { taken: Some(item) } => {
                &&& selects(queues[0], Some(item))
                &&& marked_when_selected(replies, item, queues[0], queues.last())
            },
            TakingView::Failed { .. } => true,
            _ => selects(queues[0], None) && queues.last() == queues[0],
        },
    decreases replies.len(),
{
    if replies.len() > 0 {
        let earlier = replies.drop_last();
        let (first, before) = (queues[0], queues[replies.len() - 1]);
        lemma_taking_so_far(earlier, queues.drop_last());
        assert(queues.drop_last()[0] == first);
        assert(queues.drop_last().last() == before);
        lemma_queue_texts();
        match taking_after_all(earlier) {
            TakingView::Marking { item, now } => {
                let mark = QueueOp::Mark { rowid: item.rowid, now };
                law_statements_do_what_they_are_for(mark, before, queues[replies.len() as int]);
                assert(is_pending(first, item.rowid));
                let i = lemma_marking_was_selected(earlier, item, now);
                assert(replies.take(i) =~= earlier.take(i));
                assert(replies[i] == earlier[i]);
            },
            TakingView::Committing { taken: Some(item) } => {
                lemma_still_marked(replies, item, first, before);
            },
            TakingView::Taken { taken: Some(item) } => {
                lemma_still_marked(replies, item, first, before);
            },
            _ => {},
        }
    }
}

proof fn lemma_still_marked<E>(
    replies: Seq<(ReplyView<E>, i64)>,
    item: QueuedView,
    before: Map<i64, Entry>,
    after: Map<i64, Entry>,
)
    requires
        replies.len() > 0,
        marked_when_selected(replies.drop_last(), item, before, after),
    ensures
        marked_when_selected(replies, item, before, after),
{
    let earlier = replies.drop_last();
    let i = choose|i: int|
        {
            &&& 0 <= i < earlier.len()
            &&& taking_after_all(earlier.take(i)) == TakingView::<E>::Selecting
            &&& (#[trigger] earlier[i]).0 == ReplyView::<E>::Queued(Some(item))
            &&& before.contains_key(item.rowid)
            &&& after == before.insert(
                item.rowid,
                Entry {
                    track_id: item.track_id,
                    enqueued_at: before[item.rowid].enqueued_at,
                    status: EntryStatus::Processing,
                    attempts: before[item.rowid].attempts + 1,
                    last_attempt_at: Some(earlier[i].1),
                },
            )
        };
    assert(replies.take(i) =~= earlier.take(i));
    assert(replies[i] == earlier[i]);
}

/// Attempts are never negative, the time of the last one is there exactly where there
/// was one, and an entry that is being worked on has been tried at least once.
pub open spec fn attempts_agree(entry: Entry) -> bool {
    &&& entry.attempts >= 0
    &&& entry.last_attempt_at is None <==> entry.attempts == 0
    &&& entry.status is Processing ==> entry.attempts >= 1
}

/// What holds of every entry of a queue that began empty, whatever statements have gone
/// through: its attempts agree with its status and with the time of the last one, and
/// no other entry is for the same track.
pub proof fn law_entries_are_sound(ops: Seq<QueueOp>, queues: Seq<Map<i64, Entry>>, k: int)
    requires
        queue_passes(ops, queues),
        queues[0] == Map::<i64, Entry>::empty(),
        0 <= k < queues.len(),
    ensures
        forall|rowid: i64| #[trigger]
            queues[k].contains_key(rowid) ==> attempts_agree(queues[k][rowid]),
        tracks_distinct(queues[k]),
    decreases k,
{
    if k > 0 {
        law_entries_are_sound(ops, queues, k - 1);
        assert(passes_at(ops, queues, k - 1));
        law_tracks_stay_distinct(ops[k - 1], queues[k - 1], queues[k]);
        law_statements_do_what_they_are_for(ops[k - 1], queues[k - 1], queues[k]);
        let (before, after) = (queues[k - 1], queues[k]);
        assert forall|rowid: i64| #[trigger] after.contains_key(rowid) implies attempts_agree(
            after[rowid],
        ) by {
            assert(before.contains_key(rowid) ==> attempts_agree(before[rowid]));
        }
    }
}

/// The row ids of the entries that wait.
pub open spec fn pending(queue: Map<i64, Entry>) -> Set<i64> {
    Set::new(|rowid: i64| is_pending(queue, rowid))
}

/// The entry that a transaction has taken, if it has taken one.
pub open spec fn taken_by<E>(replies: Seq<(ReplyView<E>, i64)>) -> Option<QueuedView> {
    match taking_after_all(replies) {
        TakingView::Taken { taken } => taken,
        _ => None,
    }
}

/// One transaction to take an entry: its replies, and the queues that it passes through.
pub struct Take<E> {
    pub replies: Seq<(ReplyView<E>, i64)>,
    pub queues: Seq<Map<i64, Entry>>,
}

/// The transaction has not failed, and takes the queue from `before` to `after`.
pub open spec fn take_succeeds<E>(
    take: Take<E>,
    before: Map<i64, Entry>,
    after: Map<i64, Entry>,
) -> bool {
    &&& taking_passes(take.replies, take.queues)
    &&& taking_after_all(take.replies) is Taken
    &&& take.queues[0] == before
    &&& queue_left(take.replies, take.queues) == after
}

/// Transactions that take an entry succeed one after another, and nobody else changes
/// the queue meanwhile: it is one of `queues` before each, and the next behind it.
pub open spec fn takes_succeed<E>(takes: Seq<Take<E>>, queues: Seq<Map<i64, Entry>>) -> bool {
    &&& queues.len() == takes.len() + 1
    &&& forall|k: int|
        0 <= k < takes.len() ==> take_succeeds(#[trigger] takes[k], queues[k], queues[k + 1])
}

proof fn lemma_pending_is_finite(queue: Map<i64, Entry>)
    ensures
        pending(queue).finite(),
{
    let numbers = set_int_range(i64::MIN as int, i64::MAX + 1);
    lemma_int_range(i64::MIN as int, i64::MAX + 1);
    numbers.lemma_map_finite(|number: int| number as i64);
    let rowids = numbers.map(|number: int| number as i64);
    assert forall|rowid: i64| #[trigger] pending(queue).contains(rowid) implies rowids.contains(
        rowid,
    ) by {
        assert(numbers.contains(rowid as int));
    }
    lemma_set_subset_finite(rowids, pending(queue));
}

proof fn lemma_take_serves_the_next<E>(
    take: Take<E>,
    before: Map<i64, Entry>,
    after: Map<i64, Entry>,
)
    requires
        take_succeeds(take, before, after),
    ensures
        match taken_by(take.replies) {
            Some(item) => {
                &&& selects(before, Some(item))
                &&& pending(after) == pending(before).remove(item.rowid)
                &&& forall|rowid: i64|
                    rowid != item.rowid ==> #[trigger] after.contains_key(rowid)
                        == before.contains_key(rowid) && after[rowid] == before[rowid]
            },
            None => pending(before) == Set::<i64>::empty() && after == before,
        },
{
    law_taking_is_all_or_nothing(take.replies, take.queues);
    match taken_by(take.replies) {
        Some(item) => {
            assert(is_pending(before, item.rowid));
            assert forall|rowid: i64| rowid != item.rowid implies #[trigger] after.contains_key(
                rowid,
            ) == before.contains_key(rowid) && after[rowid] == before[rowid] by {}
            assert(pending(after) =~= pending(before).remove(item.rowid));
        },
        None => {
            assert(pending(before) =~= Set::<i64>::empty());
        },
    }
}

spec fn served_so_far<E>(takes: Seq<Take<E>>, queues: Seq<Map<i64, Entry>>, k: int) -> bool {
    let (first, left) = (queues[0], queues[k]);
    let all = pending(first).len();
    &&& pending(left).subset_of(pending(first))
    &&& pending(left).len() == if k < all {
        all - k
    } else {
        0
    }
    &&& forall|i: int| 0 <= i < k ==> (taken_by((#[trigger] takes[i]).replies) is Some <==> i < all)
    &&& forall|i: int|
        0 <= i < k && i < all ==> {
            let item = taken_by((#[trigger] takes[i]).replies)->0;
            &&& is_pending(first, item.rowid)
            &&& item.track_id == first[item.rowid].track_id
            &&& !pending(left).contains(item.rowid)
        }
    &&& forall|i: int, rowid: i64|
        #![trigger takes[i], pending(left).contains(rowid)]
        0 <= i < k && i < all && pending(left).contains(rowid) ==> taken_by(
            takes[i].replies,
        )->0.rowid < rowid
    &&& forall|i: int, j: int|
        #![trigger takes[i], takes[j]]
        0 <= i < j < k && j < all ==> taken_by(takes[i].replies)->0.rowid < taken_by(
            takes[j].replies,
        )->0.rowid
    &&& forall|rowid: i64| #[trigger]
        is_pending(first, rowid) && !pending(left).contains(rowid) ==> was_taken(takes, k, rowid)
    &&& forall|rowid: i64|
        !is_pending(first, rowid) || pending(left).contains(rowid) ==> #[trigger] left.contains_key(
            rowid,
        ) == first.contains_key(rowid) && left[rowid] == first[rowid]
}

/// One of the first `k` takes has taken the entry.
pub open spec fn was_taken<E>(takes: Seq<Take<E>>, k: int, rowid: i64) -> bool {
    exists|i: int|
        0 <= i < k && taken_by((#[trigger] takes[i]).replies) is Some && taken_by(
            takes[i].replies,
        )->0.rowid == rowid
}

proof fn lemma_served_so_far<E>(takes: Seq<Take<E>>, queues: Seq<Map<i64, Entry>>, k: int)
    requires
        takes_succeed(takes, queues),
        0 <= k <= takes.len(),
    ensures
        served_so_far(takes, queues, k),
    decreases k,
{
    lemma_pending_is_finite(queues[0]);
    if k > 0 {
        let last = k - 1;
        lemma_served_so_far(takes, queues, last);
        lemma_pending_is_finite(queues[last]);
        assert(take_succeeds(takes[last], queues[last], queues[k]));
        lemma_take_serves_the_next(takes[last], queues[last], queues[k]);
        lemma_one_more_served(takes, queues, last);
    }
}

proof fn lemma_one_more_served<E>(takes: Seq<Take<E>>, queues: Seq<Map<i64, Entry>>, k: int)
    requires
        0 <= k < takes.len(),
        queues.len() == takes.len() + 1,
        served_so_far(takes, queues, k),
        pending(queues[0]).finite(),
        pending(queues[k]).finite(),
        ({
            let (before, after) = (queues[k], queues[k + 1]);
            match taken_by(takes[k].replies) {
                Some(item) => {
                    &&& selects(before, Some(item))
                    &&& pending(after) == pending(before).remove(item.rowid)
                    &&& forall|rowid: i64|
                        rowid != item.rowid ==> #[trigger] after.contains_key(rowid)
                            == before.contains_key(rowid) && after[rowid] == before[rowid]
                },
                None => pending(before) == Set::<i64>::empty() && after == before,
            }
        }),
    ensures
        served_so_far(takes, queues, k + 1),
{
    let (first, before, after) = (queues[0], queues[k], queues[k + 1]);
    let all = pending(first).len();
    assert forall|rowid: i64| #[trigger]
        is_pending(first, rowid) && !pending(after).contains(rowid) implies was_taken(
        takes,
        k + 1,
        rowid,
    ) by {
        if pending(before).contains(rowid) {
            assert(taken_by(takes[k].replies)->0.rowid == rowid);
        } else {
            assert(was_taken(takes, k, rowid));
            let i = choose|i: int|
                0 <= i < k && taken_by((#[trigger] takes[i]).replies) is Some && taken_by(
                    takes[i].replies,
                )->0.rowid == rowid;
            assert(0 <= i < k + 1);
        }
    }
    match taken_by(takes[k].replies) {
        Some(item) => {
            assert(pending(before).contains(item.rowid));
            assert(k < all);
            assert forall|rowid: i64| #[trigger] pending(after).contains(rowid) implies item.rowid
                < rowid by {
                assert(is_pending(before, rowid));
            }
            assert forall|rowid: i64|
                !is_pending(first, rowid) || pending(after).contains(
                    rowid,
                ) implies #[trigger] after.contains_key(rowid) == first.contains_key(rowid)
                && after[rowid] == first[rowid] by {
                assert(is_pending(first, item.rowid));
                assert(before.contains_key(rowid) == first.contains_key(rowid));
            }
        },
        None => {
            assert(pending(before).len() == 0);
        },
    }
}

/// Takes that succeed one after another hand out every entry that waits, each exactly
/// once and by rising row id, and then nothing more. The entries that did not wait stay
/// as they are.
pub proof fn law_takes_serve_each_entry_once<E>(takes: Seq<Take<E>>, queues: Seq<Map<i64, Entry>>)
    requires
        takes_succeed(takes, queues),
    ensures
        pending(queues[0]).finite(),
        forall|i: int|
            0 <= i < takes.len() ==> (taken_by((#[trigger] takes[i]).replies) is Some <==> i
                < pending(queues[0]).len()),
        forall|i: int|
            0 <= i < takes.len() && i < pending(queues[0]).len() ==> {
                let item = taken_by((#[trigger] takes[i]).replies)->0;
                &&& is_pending(queues[0], item.rowid)
                &&& item.track_id == queues[0][item.rowid].track_id
                &&& !is_pending(queues.last(), item.rowid)
            },
        forall|i: int, j: int|
            #![trigger takes[i], takes[j]]
            0 <= i < j < takes.len() && j < pending(queues[0]).len() ==> taken_by(
                takes[i].replies,
            )->0.rowid < taken_by(takes[j].replies)->0.rowid,
        takes.len() >= pending(queues[0]).len() ==> selects(queues.last(), None) && forall|
            rowid: i64,
        | #[trigger]
            is_pending(queues[0], rowid) ==> was_taken(takes, takes.len() as int, rowid),
        forall|rowid: i64|
            !is_pending(queues[0], rowid) ==> #[trigger] queues.last().contains_key(rowid)
                == queues[0].contains_key(rowid) && queues.last()[rowid] == queues[0][rowid],
{
    lemma_pending_is_finite(queues[0]);
    lemma_pending_is_finite(queues.last());
    lemma_served_so_far(takes, queues, takes.len() as int);
    assert forall|i: int| 0 <= i < takes.len() && i < pending(queues[0]).len() implies !is_pending(
        queues.last(),
        taken_by((#[trigger] takes[i]).replies)->0.rowid,
    ) by {
        assert(!pending(queues.last()).contains(taken_by(takes[i].replies)->0.rowid));
    }
    if takes.len() >= pending(queues[0]).len() {
        assert(pending(queues.last()) =~= Set::<i64>::empty());
        assert forall|rowid: i64| !#[trigger] is_pending(queues.last(), rowid) by {
            assert(!pending(queues.last()).contains(rowid));
        }
        assert forall|rowid: i64| #[trigger] is_pending(queues[0], rowid) implies was_taken(
            takes,
            takes.len() as int,
            rowid,
        ) by {
            assert(!pending(queues.last()).contains(rowid));
        }
    }
}

/// How far a transaction has come is seen as it is, with its own entry, time or error.
pub proof fn law_taking_is_seen_as_it_is<E>(state: Taking<E>)
    ensures
        match state {
            Taking::Opening => state@ == TakingView::<E>::Opening,
            Taking::Selecting => state@ == TakingView::<E>::Selecting,
            Taking::Marking { item, now } => state@ == (TakingView::<E>::Marking {
                item: QueuedView { rowid: item.rowid, track_id: item.track_id@ },
                now,
            }),
            Taking::Committing { taken: Some(item) } => state@ == (TakingView::<E>::Committing {
                taken: Some(QueuedView { rowid: item.rowid, track_id: item.track_id@ }),
            }),
            Taking::Committing { taken: None } => state@ == (TakingView::<E>::Committing {
                taken: None,
            }),
            Taking::Taken { taken: Some(item) } => state@ == (TakingView::<E>::Taken {
                taken: Some(QueuedView { rowid: item.rowid, track_id: item.track_id@ }),
            }),
            Taking::Taken { taken: None } => state@ == (TakingView::<E>::Taken { taken: None }),
            Taking::Failed { error } => state@ == (TakingView::<E>::Failed { error }),
        },
{
}

/// What a transaction hands out is the entry that it has taken, or its own error, and it
/// hands out nothing before it is over.
pub proof fn law_result_is_the_entry_taken<E>(
    state: Taking<E>,
    result: Option<Result<Option<QueuedTrack>, E>>,
)
    requires
        call_ensures(Taking::<E>::into_result, (state,), result),
    ensures
        match state {
            Taking::Taken { taken: Some(item) } => {
                &&& result matches Some(Ok(Some(given)))
                &&& given.rowid == item.rowid
                &&& given.track_id@ == item.track_id@
            },
            Taking::Taken { taken: None } => result matches Some(Ok(None)),
            Taking::Failed { error } => result == Some(Err::<Option<QueuedTrack>, E>(error)),
            _ => result is None,
        },
{
}

} // verus!
