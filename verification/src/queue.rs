//! The queue of missing tracks: its statements, and the transaction that takes the
//! next entry off it.

use vstd::prelude::*;

use crate::clock::read_clock;
use crate::sql::{Param, QueuedTrack, Reply, Request, Statement};

verus! {

use crate::clock::clock_gave;
use crate::sql::{
    queued_view,
    request_view,
    statement,
    ParamView,
    QueuedView,
    ReplyView,
    RequestView,
    StatementView,
};

/// Enters a track as pending, unless it is in the queue already.
pub const ENQUEUE: &'static str = "INSERT OR IGNORE INTO missing_tracks_queue (track_id, enqueued_at, status, attempts) VALUES (?, ?, 'pending', 0)";

/// Selects the pending entry that was entered first.
pub const NEXT_PENDING: &'static str = "SELECT rowid, track_id FROM missing_tracks_queue WHERE status = 'pending' ORDER BY rowid LIMIT 1";

/// Marks an entry as being processed and counts the attempt.
pub const MARK_PROCESSING: &'static str = "UPDATE missing_tracks_queue SET status = 'processing', attempts = attempts + 1, last_attempt_at = ? WHERE rowid = ?";

/// Takes an entry out of the queue.
pub const REMOVE: &'static str = "DELETE FROM missing_tracks_queue WHERE rowid = ?";

/// Makes an entry pending again.
pub const RESET: &'static str = "UPDATE missing_tracks_queue SET status = 'pending' WHERE rowid = ?";

/// The statement that enters a track at the time `now`.
pub open spec fn enqueue_statement(track_id: Seq<char>, now: i64) -> StatementView {
    statement(ENQUEUE, seq![ParamView::Text(track_id), ParamView::Int(now)])
}

/// The statement that selects the next entry.
pub open spec fn next_pending_statement() -> StatementView {
    statement(NEXT_PENDING, seq![])
}

/// The statement that marks an entry at the time `now`.
pub open spec fn mark_statement(rowid: i64, now: i64) -> StatementView {
    statement(MARK_PROCESSING, seq![ParamView::Int(now), ParamView::Int(rowid)])
}

/// The statement that takes an entry out.
pub open spec fn remove_statement(rowid: i64) -> StatementView {
    statement(REMOVE, seq![ParamView::Int(rowid)])
}

/// The statement that makes an entry pending again.
pub open spec fn reset_statement(rowid: i64) -> StatementView {
    statement(RESET, seq![ParamView::Int(rowid)])
}

/// The statement that enters a track at the time `now`.
pub fn queue_missing_track_at(track_id: &str, now: i64) -> (insert: Statement)
    ensures
        insert@ == enqueue_statement(track_id@, now),
{
    let insert = Statement {
        sql: ENQUEUE,
        params: vec![Param::Text(track_id.to_owned()), Param::Int(now)],
    };
    assert(insert@.params =~= enqueue_statement(track_id@, now).params);
    insert
}

/// The statement that enters a track now.
pub fn queue_missing_track(track_id: &str) -> (insert: Statement)
    ensures
        exists|now: i64|
            0 <= now && clock_gave(now) && insert@ == #[trigger] enqueue_statement(track_id@, now),
{
    let now: i64 = read_clock();
    queue_missing_track_at(track_id, now)
}

/// The statement that takes an entry out of the queue.
pub fn remove_queued_track(rowid: i64) -> (delete: Statement)
    ensures
        delete@ == remove_statement(rowid),
{
    let delete = Statement { sql: REMOVE, params: vec![Param::Int(rowid)] };
    assert(delete@.params =~= remove_statement(rowid).params);
    delete
}

/// The statement that makes an entry pending again.
pub fn reset_queued_track(rowid: i64) -> (update: Statement)
    ensures
        update@ == reset_statement(rowid),
{
    let update = Statement { sql: RESET, params: vec![Param::Int(rowid)] };
    assert(update@.params =~= reset_statement(rowid).params);
    update
}

/// How far the transaction that takes the next entry has come. `E` is what the database
/// calls an error.
#[derive(Debug, PartialEq, Eq)]
pub enum Taking<E> {
    /// The transaction is to be opened.
    Opening,
    /// The next entry is to be selected.
    Selecting,
    /// The entry selected is to be marked as being processed since `now`.
    Marking { item: QueuedTrack, now: i64 },
    /// The transaction is to be committed.
    Committing { taken: Option<QueuedTrack> },
    /// The entry is taken, or there was none.
    Taken { taken: Option<QueuedTrack> },
    /// A step failed. The transaction is to be dropped.
    Failed { error: E },
}

/// How far the transaction has come, its texts as sequences.
pub enum TakingView<E> {
    Opening,
    Selecting,
    Marking { item: QueuedView, now: i64 },
    Committing { taken: Option<QueuedView> },
    Taken { taken: Option<QueuedView> },
    Failed { error: E },
}

impl<E> View for Taking<E> {
    type V = TakingView<E>;

    open spec fn view(&self) -> TakingView<E> {
        match self {
            Taking::Opening => TakingView::Opening,
            Taking::Selecting => TakingView::Selecting,
            Taking::Marking { item, now } => TakingView::Marking { item: item@, now: *now },
            Taking::Committing { taken } => TakingView::Committing { taken: queued_view(*taken) },
            Taking::Taken { taken } => TakingView::Taken { taken: queued_view(*taken) },
            Taking::Failed { error } => TakingView::Failed { error: *error },
        }
    }
}

/// What the transaction asks for in this state; nothing once it is over.
pub open spec fn taking_request<E>(state: TakingView<E>) -> Option<RequestView> {
    match state {
        TakingView::Opening => Some(RequestView::Begin),
        TakingView::Selecting => Some(RequestView::FetchQueued(next_pending_statement())),
        TakingView::Marking { item, now } => Some(
            RequestView::Execute(mark_statement(item.rowid, now)),
        ),
        TakingView::Committing { .. } => Some(RequestView::Commit),
        TakingView::Taken { .. } => None,
        TakingView::Failed { .. } => None,
    }
}

/// The state behind `reply`, which arrived at the time `now`. A failure ends the
/// transaction; a reply that does not answer the request changes nothing.
pub open spec fn taking_after<E>(
    state: TakingView<E>,
    reply: ReplyView<E>,
    now: i64,
) -> TakingView<E> {
    match (state, reply) {
        (TakingView::Taken { .. }, _) => state,
        (TakingView::Failed { .. }, _) => state,
        (_, ReplyView::Failed(error)) => TakingView::Failed { error },
        (TakingView::Opening, ReplyView::Begun) => TakingView::Selecting,
        (TakingView::Selecting, ReplyView::Queued(Some(item))) => TakingView::Marking { item, now },
        (TakingView::Selecting, ReplyView::Queued(None)) => TakingView::Committing { taken: None },
        (TakingView::Marking { item, .. }, ReplyView::Executed) => TakingView::Committing {
            taken: Some(item),
        },
        (TakingView::Committing { taken }, ReplyView::Committed) => TakingView::Taken { taken },
        _ => state,
    }
}

impl<E> Taking<E> {
    /// What the transaction asks for in this state; nothing once it is over.
    pub fn request(&self) -> (request: Option<Request>)
        ensures
            request_view(request) == taking_request(self@),
    {
        match self {
            Taking::Opening => Some(Request::Begin),
            Taking::Selecting => {
                let select = Statement { sql: NEXT_PENDING, params: Vec::new() };
                assert(select@.params =~= next_pending_statement().params);
                Some(Request::FetchQueued(select))
            },
            Taking::Marking { item, now } => {
                let update = Statement {
                    sql: MARK_PROCESSING,
                    params: vec![Param::Int(*now), Param::Int(item.rowid)],
                };
                assert(update@.params =~= mark_statement(item.rowid, *now).params);
                Some(Request::Execute(update))
            },
            Taking::Committing { taken } => Some(Request::Commit),
            Taking::Taken { taken } => None,
            Taking::Failed { error } => None,
        }
    }

    /// The entry taken, if there was one, or the error that ended the transaction;
    /// nothing before the transaction is over.
    pub fn into_result(self) -> (result: Option<Result<Option<QueuedTrack>, E>>)
        ensures
            match result {
                Some(Ok(taken)) => self@ == (TakingView::<E>::Taken { taken: queued_view(taken) }),
                Some(Err(error)) => self@ == (TakingView::<E>::Failed { error }),
                None => taking_request(self@) is Some,
            },
    {
        match self {
            Taking::Taken { taken } => Some(Ok(taken)),
            Taking::Failed { error } => Some(Err(error)),
            _ => None,
        }
    }
}

/// The state behind `reply`, which arrived at the time `now`.
pub fn take_next_queued_track_at<E>(
    state: Taking<E>,
    reply: Reply<E>,
    now: i64,
) -> (next: Taking<E>)
    ensures
        next@ == taking_after(state@, reply@, now),
{
    match (state, reply) {
        (Taking::Taken { taken }, _) => Taking::Taken { taken },
        (Taking::Failed { error }, _) => Taking::Failed { error },
        (_, Reply::Failed(error)) => Taking::Failed { error },
        (Taking::Opening, Reply::Begun) => Taking::Selecting,
        (Taking::Selecting, Reply::Queued(Some(item))) => Taking::Marking { item, now },
        (Taking::Selecting, Reply::Queued(None)) => Taking::Committing { taken: None },
        (Taking::Marking { item, now: _ }, Reply::Executed) => Taking::Committing {
            taken: Some(item),
        },
        (Taking::Committing { taken }, Reply::Committed) => Taking::Taken { taken },
        (state, _) => state,
    }
}

/// The state behind `reply`. The clock is read where an entry has been selected.
pub fn take_next_queued_track<E>(state: Taking<E>, reply: Reply<E>) -> (next: Taking<E>)
    ensures
        exists|now: i64|
            {
                &&& 0 <= now
                &&& clock_gave(now) || forall|other: i64| #[trigger]
                    taking_after(state@, reply@, other) == next@
                &&& next@ == #[trigger] taking_after(state@, reply@, now)
            },
{
    let now: i64 = match (&state, &reply) {
        (Taking::Selecting, Reply::Queued(Some(_))) => read_clock(),
        _ => 0,
    };
    assert(taking_after(state@, reply@, now) == taking_after(state@, reply@, now));
    take_next_queued_track_at(state, reply, now)
}

} // verus!
