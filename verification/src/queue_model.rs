//! What the queue of missing tracks holds, and what the statements on it do to it. This
//! is a model of SQLite and of the tables: nothing here is proved of SQLite itself, and
//! `tests/sqlite.rs` tries it. The count of attempts is taken to stay where SQLite counts
//! exactly.

use vstd::prelude::*;

verus! {

use crate::queue::{
    enqueue_statement,
    mark_statement,
    remove_statement,
    reset_statement,
    taking_after,
    taking_request,
    TakingView,
    ENQUEUE,
    MARK_PROCESSING,
    NEXT_PENDING,
    REMOVE,
    RESET,
};
use crate::sql::{QueuedView, ReplyView, RequestView, StatementView};
use crate::tables::{grants, row_added};

/// Whether an entry waits or is being worked on.
pub enum EntryStatus {
    Pending,
    Processing,
}

/// An entry of the queue.
pub struct Entry {
    pub track_id: Seq<char>,
    pub enqueued_at: i64,
    pub status: EntryStatus,
    pub attempts: int,
    pub last_attempt_at: Option<i64>,
}

/// A statement that changes the queue.
pub enum QueueOp {
    Enqueue { track_id: Seq<char>, now: i64 },
    Mark { rowid: i64, now: i64 },
    Remove { rowid: i64 },
    Reset { rowid: i64 },
}

/// The statement's text and values.
pub open spec fn op_statement(op: QueueOp) -> StatementView {
    match op {
        QueueOp::Enqueue { track_id, now } => enqueue_statement(track_id, now),
        QueueOp::Mark { rowid, now } => mark_statement(rowid, now),
        QueueOp::Remove { rowid } => remove_statement(rowid),
        QueueOp::Reset { rowid } => reset_statement(rowid),
    }
}

/// An entry as it is entered.
pub open spec fn new_entry(track_id: Seq<char>, now: i64) -> Entry {
    Entry {
        track_id,
        enqueued_at: now,
        status: EntryStatus::Pending,
        attempts: 0,
        last_attempt_at: None,
    }
}

/// An entry as marking leaves it.
pub open spec fn marked_entry(entry: Entry, now: i64) -> Entry {
    Entry {
        status: EntryStatus::Processing,
        attempts: entry.attempts + 1,
        last_attempt_at: Some(now),
        ..entry
    }
}

/// An entry as resetting leaves it.
pub open spec fn reset_entry(entry: Entry) -> Entry {
    Entry { status: EntryStatus::Pending, ..entry }
}

/// An entry that has been tried once more, but is otherwise as it was.
pub open spec fn counted_entry(entry: Entry, now: i64) -> Entry {
    Entry { attempts: entry.attempts + 1, last_attempt_at: Some(now), ..entry }
}

/// The track is in the queue.
pub open spec fn has_track(queue: Map<i64, Entry>, track_id: Seq<char>) -> bool {
    exists|rowid: i64| #[trigger]
        queue.contains_key(rowid) && queue[rowid].track_id == track_id
}

/// What a statement that goes through does to the queue, read off its text and off the
/// values bound to it. Each value goes where its question mark stands in the text. Any
/// other statement leaves the queue as it is. An entry's key is its row id.
pub open spec fn queue_effect(
    s: StatementView,
    before: Map<i64, Entry>,
    after: Map<i64, Entry>,
) -> bool {
    let values = s.params;
    if s.sql == ENQUEUE@ && values.len() == 2 && values[0] is Text && values[1] is Int {
        // (track_id, enqueued_at, status, attempts) VALUES (?, ?, 'pending', 0)
        let (track_id, enqueued_at) = (values[0]->Text_0, values[1]->Int_0);
        if has_track(before, track_id) {
            after == before
        } else {
            row_added(before, after, new_entry(track_id, enqueued_at))
        }
    } else if s.sql == MARK_PROCESSING@ && values.len() == 2 && values[0] is Int
        && values[1] is Int {
        // attempts = attempts + 1, last_attempt_at = ? WHERE rowid = ?
        let (time, rowid) = (values[0]->Int_0, values[1]->Int_0);
        after == if before.contains_key(rowid) {
            before.insert(rowid, marked_entry(before[rowid], time))
        } else {
            before
        }
    } else if s.sql == REMOVE@ && values.len() == 1 && values[0] is Int {
        after == before.remove(values[0]->Int_0)
    } else if s.sql == RESET@ && values.len() == 1 && values[0] is Int {
        let rowid = values[0]->Int_0;
        after == if before.contains_key(rowid) {
            before.insert(rowid, reset_entry(before[rowid]))
        } else {
            before
        }
    } else {
        after == before
    }
}

/// What a change, made by its statement, does to the queue.
pub open spec fn op_effect(op: QueueOp, before: Map<i64, Entry>, after: Map<i64, Entry>) -> bool {
    queue_effect(op_statement(op), before, after)
}

/// The statement `k` takes the queue from one of `queues` to the next.
pub open spec fn passes_at(ops: Seq<QueueOp>, queues: Seq<Map<i64, Entry>>, k: int) -> bool {
    op_effect(ops[k], queues[k], queues[k + 1])
}

/// The queue passes through `queues` while statements go through, one after another.
pub open spec fn queue_passes(ops: Seq<QueueOp>, queues: Seq<Map<i64, Entry>>) -> bool {
    &&& queues.len() == ops.len() + 1
    &&& forall|k: int| 0 <= k < ops.len() ==> #[trigger] passes_at(ops, queues, k)
}

/// The entry waits.
pub open spec fn is_pending(queue: Map<i64, Entry>, rowid: i64) -> bool {
    queue.contains_key(rowid) && queue[rowid].status is Pending
}

/// What the statement that selects the next entry answers: the pending entry with the
/// lowest row id, or nothing where none is pending.
pub open spec fn selects(queue: Map<i64, Entry>, answer: Option<QueuedView>) -> bool {
    match answer {
        Some(item) => {
            &&& is_pending(queue, item.rowid)
            &&& queue[item.rowid].track_id == item.track_id
            &&& forall|other: i64| #[trigger] is_pending(queue, other) ==> item.rowid <= other
        },
        None => forall|other: i64| !#[trigger] is_pending(queue, other),
    }
}

/// No track is in the queue twice.
pub open spec fn tracks_distinct(queue: Map<i64, Entry>) -> bool {
    forall|a: i64, b: i64| #[trigger]
        queue.contains_key(a) && #[trigger] queue.contains_key(b) && queue[a].track_id
            == queue[b].track_id ==> a == b
}

/// What a statement that reads an entry answers, read off its text: the next entry where
/// it is the text for that, and anything at all otherwise.
pub open spec fn queue_answers(
    s: StatementView,
    queue: Map<i64, Entry>,
    answer: Option<QueuedView>,
) -> bool {
    s.sql == NEXT_PENDING@ && s.params.len() == 0 ==> selects(queue, answer)
}

/// What granting the request of a state does to the queue, and what the reply says of it.
pub open spec fn taking_effect<E>(
    state: TakingView<E>,
    reply: ReplyView<E>,
    before: Map<i64, Entry>,
    after: Map<i64, Entry>,
) -> bool {
    match taking_request(state) {
        Some(RequestView::Execute(s)) => queue_effect(s, before, after),
        Some(RequestView::FetchQueued(s)) => {
            &&& queue_answers(s, before, reply->Queued_0)
            &&& after == before
        },
        _ => after == before,
    }
}

/// The state of the transaction that takes an entry, behind a row of replies, each
/// with the time it arrived.
pub open spec fn taking_after_all<E>(replies: Seq<(ReplyView<E>, i64)>) -> TakingView<E>
    decreases replies.len(),
{
    if replies.len() == 0 {
        TakingView::Opening
    } else {
        taking_after(
            taking_after_all(replies.drop_last()),
            replies.last().0,
            replies.last().1,
        )
    }
}

/// Inside the transaction the queue passes through `queues` while the replies arrive: a
/// request that is granted has its effect, and nothing else has any. What others write
/// meanwhile is not seen there.
pub open spec fn taking_passes<E>(
    replies: Seq<(ReplyView<E>, i64)>,
    queues: Seq<Map<i64, Entry>>,
) -> bool
    decreases replies.len(),
{
    if replies.len() == 0 {
        queues.len() == 1
    } else {
        let state = taking_after_all(replies.drop_last());
        let request = taking_request(state);
        let reply = replies.last().0;
        let (before, after) = (queues[replies.len() - 1], queues[replies.len() as int]);
        &&& queues.len() == replies.len() + 1
        &&& taking_passes(replies.drop_last(), queues.drop_last())
        &&& if request is Some && grants(request->0, reply) {
            taking_effect(state, reply, before, after)
        } else {
            after == before
        }
    }
}

/// What the transaction leaves of the queue when it is over or dropped: what the queue
/// has come to where the transaction is committed, what it was before otherwise.
pub open spec fn queue_left<E>(
    replies: Seq<(ReplyView<E>, i64)>,
    queues: Seq<Map<i64, Entry>>,
) -> Map<i64, Entry> {
    if taking_after_all(replies) is Taken {
        queues.last()
    } else {
        queues[0]
    }
}

} // verus!
