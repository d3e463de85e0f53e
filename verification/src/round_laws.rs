//! What one round of the worker is: which entry it takes, which track it fetches for it,
//! and what becomes of the queue and of the catalogue, over any run of the worker and
//! whatever events arrive. What becomes of the tables holds if SQLite behaves as
//! [`queue_model`](crate::queue_model) and [`catalogue_model`](crate::catalogue_model)
//! say.

use vstd::prelude::*;

verus! {

use crate::catalog::TrackView;
use crate::catalogue_laws::lemma_catalogue_texts;
use crate::catalogue_model::{
    catalogue_effect,
    finds_row,
    request_effect,
    saving_passes,
    Catalogue,
};
use crate::ids::is_object_id;
use crate::queue::TakingView;
use crate::queue_laws::lemma_queue_texts;
use crate::queue_model::{queue_answers, queue_effect, selects, Entry, EntryStatus};
use crate::save::{is_over, saving_after, saving_request, Stage};
use crate::save_laws::{lemma_saving_run, lists_fit, read_in, saving_run};
use crate::sql::{QueuedView, ReplyView, RequestView, StatementView};
use crate::tables::grants;
use crate::worker::{
    phase_is_open,
    worker_action,
    worker_after,
    PhaseView,
    WorkerActionView,
    WorkerEventView,
};
use crate::worker_laws::{ends_rest, law_worker_never_stalls, phase_at};

/// The event `k` brings an entry that was asked for.
pub open spec fn is_selection<E, C>(events: Seq<(WorkerEventView<E, C>, i64)>, k: int) -> bool {
    &&& worker_action(phase_at(events, k)) is Transact
    &&& worker_action(phase_at(events, k))->Transact_0 is FetchQueued
    &&& events[k].0 is Transacted
    &&& events[k].0->Transacted_0 is Queued
    &&& events[k].0->Transacted_0->Queued_0 is Some
}

/// The entry that the event `k` brings.
pub open spec fn item_at<E, C>(events: Seq<(WorkerEventView<E, C>, i64)>, k: int) -> QueuedView {
    events[k].0->Transacted_0->Queued_0->0
}

/// The event `k` says that a transaction is committed that was to be.
pub open spec fn is_commit<E, C>(events: Seq<(WorkerEventView<E, C>, i64)>, k: int) -> bool {
    &&& worker_action(phase_at(events, k)) == WorkerActionView::Transact(RequestView::Commit)
    &&& events[k].0 is Transacted
    &&& events[k].0->Transacted_0 is Committed
}

/// The event `k` brings what came of fetching a track that was asked for.
pub open spec fn is_fetch<E, C>(events: Seq<(WorkerEventView<E, C>, i64)>, k: int) -> bool {
    &&& worker_action(phase_at(events, k)) is FetchTrack
    &&& events[k].0 is TrackFetched
}

/// The event `k` brings what came of a statement that was asked for.
pub open spec fn is_settling<E, C>(events: Seq<(WorkerEventView<E, C>, i64)>, k: int) -> bool {
    &&& worker_action(phase_at(events, k)) is Run
    &&& events[k].0 is Ran
}

/// The last event from `r` on and in front of `i` that brings an entry; minus one where
/// there is none.
pub open spec fn selection_of<E, C>(
    events: Seq<(WorkerEventView<E, C>, i64)>,
    r: int,
    i: int,
) -> int
    decreases i - r,
{
    if i <= r {
        -1
    } else if is_selection(events, i - 1) {
        i - 1
    } else {
        selection_of(events, r, i - 1)
    }
}

/// The last event from `r` on and in front of `i` that says that a transaction is
/// committed; minus one where there is none.
pub open spec fn commit_of<E, C>(events: Seq<(WorkerEventView<E, C>, i64)>, r: int, i: int) -> int
    decreases i - r,
{
    if i <= r {
        -1
    } else if is_commit(events, i - 1) {
        i - 1
    } else {
        commit_of(events, r, i - 1)
    }
}

/// The last event from `r` on and in front of `i` that ends a fetch; minus one where there
/// is none.
pub open spec fn fetch_of<E, C>(events: Seq<(WorkerEventView<E, C>, i64)>, r: int, i: int) -> int
    decreases i - r,
{
    if i <= r {
        -1
    } else if is_fetch(events, i - 1) {
        i - 1
    } else {
        fetch_of(events, r, i - 1)
    }
}

/// The last event from `r` on and in front of `i` that settles an entry; minus one where
/// there is none.
pub open spec fn settling_of<E, C>(
    events: Seq<(WorkerEventView<E, C>, i64)>,
    r: int,
    i: int,
) -> int
    decreases i - r,
{
    if i <= r {
        -1
    } else if is_settling(events, i - 1) {
        i - 1
    } else {
        settling_of(events, r, i - 1)
    }
}

/// The replies among the events from one on and in front of another, each with its time.
pub open spec fn replies_in<E, C>(
    events: Seq<(WorkerEventView<E, C>, i64)>,
    from: int,
    to: int,
) -> Seq<(ReplyView<E>, i64)>
    decreases to - from,
{
    if to <= from {
        Seq::empty()
    } else if events[to - 1].0 is Transacted {
        replies_in(events, from, to - 1).push((events[to - 1].0->Transacted_0, events[to - 1].1))
    } else {
        replies_in(events, from, to - 1)
    }
}

/// The worker begins a look at the queue in front of the event `r`, and no rest has ended
/// from then on and in front of the event `i`.
pub open spec fn in_round<E, C>(
    events: Seq<(WorkerEventView<E, C>, i64)>,
    r: int,
    i: int,
) -> bool {
    &&& 0 <= r <= i <= events.len()
    &&& phase_at(events, r) == (PhaseView::<E>::Taking { take: TakingView::Opening })
    &&& forall|m: int| r <= m < i ==> !#[trigger] ends_rest(events, m)
}

/// The fetch in this round brought a track, and its transaction has come to `stage`.
pub open spec fn track_came_to<E, C>(
    events: Seq<(WorkerEventView<E, C>, i64)>,
    r: int,
    i: int,
    stage: Stage,
) -> bool {
    let f = fetch_of(events, r, i);
    &&& events[f].0->TrackFetched_0 is Ok
    &&& saving_run(events[f].0->TrackFetched_0->Ok_0, replies_in(events, f + 1, i)).stage == stage
}

/// The entry that was brought in this round is the one in this row.
pub open spec fn picked<E, C>(
    events: Seq<(WorkerEventView<E, C>, i64)>,
    r: int,
    i: int,
    rowid: i64,
) -> bool {
    let at = selection_of(events, r, i);
    &&& r <= at < i
    &&& is_selection(events, at)
    &&& item_at(events, at).rowid == rowid
}

/// The transaction that took the entry was committed, and then the track with the entry's
/// own id was asked for.
pub open spec fn fetched_for_it<E, C>(
    events: Seq<(WorkerEventView<E, C>, i64)>,
    r: int,
    i: int,
) -> bool {
    let (at, f) = (selection_of(events, r, i), fetch_of(events, r, i));
    &&& at < f < i
    &&& is_fetch(events, f)
    &&& is_object_id(item_at(events, at).track_id)
    &&& worker_action(phase_at(events, f)) == WorkerActionView::FetchTrack(
        item_at(events, at).track_id,
    )
}

/// What the worker is at tells what has happened in the round. An entry that it marks or
/// commits is the one that was brought. A track that it fetches is that of the entry
/// brought, whose transaction is committed, and what it enters is the track that was
/// fetched for that entry, by all the replies since. It removes an entry whose id is no
/// track id or whose track is saved; it resets one whose track could not be fetched or
/// not be saved.
pub open spec fn history_holds<E, C>(
    events: Seq<(WorkerEventView<E, C>, i64)>,
    r: int,
    i: int,
) -> bool {
    let (at, c) = (selection_of(events, r, i), commit_of(events, r, i));
    let (f, m) = (fetch_of(events, r, i), settling_of(events, r, i));
    let item = item_at(events, at);
    match phase_at(events, i) {
        PhaseView::Authorizing => false,
        PhaseView::Taking { take } => {
            &&& c == -1 && f == -1 && m == -1
            &&& match take {
                TakingView::Opening => at == -1,
                TakingView::Selecting => at == -1,
                TakingView::Marking { item: marked, now } => {
                    &&& picked(events, r, i, marked.rowid)
                    &&& marked == item
                    &&& now == events[at].1
                },
                TakingView::Committing { taken: Some(taken) } => {
                    &&& picked(events, r, i, taken.rowid)
                    &&& taken == item
                },
                TakingView::Committing { taken: None } => at == -1,
                _ => false,
            }
        },
        PhaseView::Fetching { rowid, id } => {
            &&& picked(events, r, i, rowid)
            &&& at < c < i
            &&& is_commit(events, c)
            &&& id == item.track_id
            &&& is_object_id(id)
            &&& f == -1 && m == -1
        },
        PhaseView::Saving { rowid, save } => {
            &&& picked(events, r, i, rowid)
            &&& c != -1 && m == -1
            &&& fetched_for_it(events, r, i)
            &&& events[f].0->TrackFetched_0 is Ok
            &&& save == saving_run(
                events[f].0->TrackFetched_0->Ok_0,
                replies_in(events, f + 1, i),
            )
        },
        PhaseView::Removing { rowid } => {
            &&& picked(events, r, i, rowid)
            &&& c != -1 && m == -1
            &&& if is_object_id(item.track_id) {
                fetched_for_it(events, r, i) && track_came_to(events, r, i, Stage::Saved)
            } else {
                f == -1
            }
        },
        PhaseView::Resetting { rowid } => {
            &&& picked(events, r, i, rowid)
            &&& c != -1 && m == -1
            &&& fetched_for_it(events, r, i)
            &&& events[f].0->TrackFetched_0 is Err || track_came_to(events, r, i, Stage::Failed)
        },
        PhaseView::Resting => if c == -1 || at == -1 {
            f == -1 && m == -1
        } else {
            &&& picked(events, r, i, item.rowid)
            &&& at < m < i
            &&& is_settling(events, m)
            &&& if is_object_id(item.track_id) {
                &&& fetched_for_it(events, r, i)
                &&& {
                    ||| events[f].0->TrackFetched_0 is Err
                    ||| track_came_to(events, r, i, Stage::Failed)
                    ||| track_came_to(events, r, i, Stage::Saved)
                }
            } else {
                f == -1
            }
        },
    }
}

/// The tracks that were fetched fit the machine.
pub open spec fn fetched_tracks_fit<E, C>(events: Seq<(WorkerEventView<E, C>, i64)>) -> bool {
    forall|k: int|
        0 <= k < events.len() && (#[trigger] events[k]).0 is TrackFetched
            && events[k].0->TrackFetched_0 is Ok ==> lists_fit(events[k].0->TrackFetched_0->Ok_0)
}

proof fn lemma_phase_is_open<E, C>(events: Seq<(WorkerEventView<E, C>, i64)>, i: int)
    requires
        0 <= i <= events.len(),
    ensures
        phase_is_open(phase_at(events, i)),
    decreases i,
{
    if i > 0 {
        lemma_phase_is_open(events, i - 1);
        law_worker_never_stalls(phase_at(events, i - 1), events[i - 1].0, events[i - 1].1);
    }
}

#[verifier::spinoff_prover]
proof fn lemma_history_goes_on<E, C>(
    events: Seq<(WorkerEventView<E, C>, i64)>,
    r: int,
    i: int,
)
    requires
        in_round(events, r, i + 1),
        r <= i,
        fetched_tracks_fit(events),
        phase_is_open(phase_at(events, i)),
        history_holds(events, r, i),
    ensures
        history_holds(events, r, i + 1),
{
    let (phase, event, clock) = (phase_at(events, i), events[i].0, events[i].1);
    assert(phase_at(events, i + 1) == worker_after(phase, event, clock));
    assert(!ends_rest(events, i));
    let f = fetch_of(events, r, i);
    if f != -1 {
        assert(replies_in(events, f + 1, i + 1) == if event is Transacted {
            replies_in(events, f + 1, i).push((event->Transacted_0, clock))
        } else {
            replies_in(events, f + 1, i)
        });
        if events[f].0->TrackFetched_0 is Ok {
            let track = events[f].0->TrackFetched_0->Ok_0;
            let replies = replies_in(events, f + 1, i);
            lemma_saving_run(track, replies);
            if event is Transacted {
                let more = replies.push((event->Transacted_0, clock));
                assert(more.drop_last() =~= replies);
                assert(saving_run(track, more) == saving_after(
                    saving_run(track, replies),
                    event->Transacted_0,
                    clock,
                ));
            }
        }
    }
    match phase {
        PhaseView::Authorizing => {},
        PhaseView::Taking { take } => {
            assert(!is_fetch(events, i) && !is_settling(events, i));
        },
        PhaseView::Fetching { rowid, id } => {
            assert(!is_selection(events, i) && !is_commit(events, i) && !is_settling(events, i));
            if event is TrackFetched && event->TrackFetched_0 is Ok {
                assert(replies_in(events, i + 1, i + 1) =~= Seq::empty());
            }
        },
        PhaseView::Saving { rowid, save } => {
            assert(!is_selection(events, i) && !is_fetch(events, i) && !is_settling(events, i));
        },
        _ => {
            assert(!is_selection(events, i) && !is_commit(events, i) && !is_fetch(events, i));
        },
    }
}

/// Over any run of the worker, from the beginning of a round on and until its rest has
/// ended: what the worker is at tells what has happened in the round.
pub proof fn law_phase_tells_the_round<E, C>(
    events: Seq<(WorkerEventView<E, C>, i64)>,
    r: int,
    i: int,
)
    requires
        in_round(events, r, i),
        fetched_tracks_fit(events),
    ensures
        history_holds(events, r, i),
    decreases i,
{
    if i > r {
        assert(in_round(events, r, i - 1));
        law_phase_tells_the_round(events, r, i - 1);
        lemma_phase_is_open(events, i - 1);
        lemma_history_goes_on(events, r, i - 1);
    }
}

/// A worker that has asked for its token is in a round.
pub proof fn lemma_round_has_begun<E, C>(events: Seq<(WorkerEventView<E, C>, i64)>, i: int) -> (r:
    int)
    requires
        0 <= i <= events.len(),
        phase_at(events, i) != PhaseView::<E>::Authorizing,
    ensures
        in_round(events, r, i),
    decreases i,
{
    let (phase, event) = (phase_at(events, i - 1), events[i - 1].0);
    assert(phase_at(events, i) == worker_after(phase, event, events[i - 1].1));
    if phase == PhaseView::<E>::Authorizing || ends_rest(events, i - 1) {
        i
    } else {
        lemma_round_has_begun(events, i - 1)
    }
}

/// Over any run of the worker: the track that it asks Spotify for is that of the entry
/// which it has taken. The entry was brought by the reply that selected it, its transaction
/// has been committed since, no rest has ended since, and the id asked for is that entry's
/// own, which is a track id.
pub proof fn law_fetch_asks_for_the_entry_taken<E, C>(
    events: Seq<(WorkerEventView<E, C>, i64)>,
    i: int,
)
    requires
        0 <= i <= events.len(),
        fetched_tracks_fit(events),
        worker_action(phase_at(events, i)) is FetchTrack,
    ensures
        exists|at: int, c: int|
            #![trigger is_selection(events, at), is_commit(events, c)]
            {
                &&& 0 <= at < c < i
                &&& is_selection(events, at)
                &&& is_commit(events, c)
                &&& worker_action(phase_at(events, i)) == WorkerActionView::FetchTrack(
                    item_at(events, at).track_id,
                )
                &&& is_object_id(item_at(events, at).track_id)
                &&& forall|m: int| at <= m < i ==> !#[trigger] ends_rest(events, m)
            },
{
    let r = lemma_round_has_begun(events, i);
    law_phase_tells_the_round(events, r, i);
    let (at, c) = (selection_of(events, r, i), commit_of(events, r, i));
    assert(is_selection(events, at) && is_commit(events, c));
}

/// Over any run of the worker: a statement that it runs by itself settles the entry which
/// it has taken, and no other. It takes the entry out of the queue where the entry's id is
/// no track id, or where the track that was fetched for it is saved; it makes the entry
/// pending again, and changes nothing else of it, where the track could not be fetched, or
/// could not be saved.
pub proof fn law_statement_settles_the_entry_taken<E, C>(
    events: Seq<(WorkerEventView<E, C>, i64)>,
    i: int,
    before: Map<i64, Entry>,
    after: Map<i64, Entry>,
)
    requires
        0 <= i <= events.len(),
        fetched_tracks_fit(events),
        worker_action(phase_at(events, i)) is Run,
        queue_effect(worker_action(phase_at(events, i))->Run_0, before, after),
    ensures
        exists|r: int|
            {
                let (at, f) = (selection_of(events, r, i), fetch_of(events, r, i));
                let item = item_at(events, at);
                &&& #[trigger] in_round(events, r, i)
                &&& picked(events, r, i, item.rowid)
                &&& {
                    ||| {
                        &&& after == before.remove(item.rowid)
                        &&& is_object_id(item.track_id) ==> fetched_for_it(events, r, i)
                            && track_came_to(events, r, i, Stage::Saved)
                    }
                    ||| {
                        &&& after == if before.contains_key(item.rowid) {
                            before.insert(
                                item.rowid,
                                Entry { status: EntryStatus::Pending, ..before[item.rowid] },
                            )
                        } else {
                            before
                        }
                        &&& fetched_for_it(events, r, i)
                        &&& events[f].0->TrackFetched_0 is Err || track_came_to(
                            events,
                            r,
                            i,
                            Stage::Failed,
                        )
                    }
                }
            },
{
    let r = lemma_round_has_begun(events, i);
    law_phase_tells_the_round(events, r, i);
    lemma_queue_texts();
    assert(in_round(events, r, i));
}

/// The tables.
pub struct World {
    pub queue: Map<i64, Entry>,
    pub catalogue: Catalogue,
}

/// What the database keeps, and what the transaction sees that was opened last.
pub struct Database {
    pub kept: World,
    pub open: World,
}

/// What a statement that goes through does to the tables, by its text and its values.
pub open spec fn world_effect(s: StatementView, before: World, after: World) -> bool {
    &&& queue_effect(s, before.queue, after.queue)
    &&& catalogue_effect(s, before.catalogue, after.catalogue)
}

/// What carrying out an action does to the database where the event is what came of it. A
/// transaction sees what is kept when it is opened, changes only what it sees, and is kept
/// when it is committed. A statement by itself changes what is kept. What fails changes
/// nothing, nor does an event that does not answer the action. Nobody else writes
/// meanwhile.
pub open spec fn database_step<E, C>(
    action: WorkerActionView,
    event: WorkerEventView<E, C>,
    before: Database,
    after: Database,
) -> bool {
    match (action, event) {
        (WorkerActionView::Transact(request), WorkerEventView::Transacted(reply)) => {
            if !grants(request, reply) {
                after == before
            } else {
                match request {
                    RequestView::Begin => {
                        after == (Database { kept: before.kept, open: before.kept })
                    },
                    RequestView::Execute(s) => {
                        &&& after.kept == before.kept
                        &&& world_effect(s, before.open, after.open)
                    },
                    RequestView::FetchRowid(s) => {
                        &&& finds_row(s, before.open.catalogue, reply->Rowid_0)
                        &&& after == before
                    },
                    RequestView::FetchQueued(s) => {
                        &&& queue_answers(s, before.open.queue, reply->Queued_0)
                        &&& after == before
                    },
                    RequestView::Commit => {
                        after == (Database { kept: before.open, open: before.open })
                    },
                }
            }
        },
        (WorkerActionView::Run(s), WorkerEventView::Ran(outcome)) => {
            if outcome is Ok {
                &&& after.open == before.open
                &&& world_effect(s, before.kept, after.kept)
            } else {
                after == before
            }
        },
        _ => after == before,
    }
}

/// The event `k` and what was asked for take the database from one of `dbs` to the next.
pub open spec fn database_passes_at<E, C>(
    events: Seq<(WorkerEventView<E, C>, i64)>,
    dbs: Seq<Database>,
    k: int,
) -> bool {
    database_step(worker_action(phase_at(events, k)), events[k].0, dbs[k], dbs[k + 1])
}

/// The database passes through `dbs` while the worker runs.
pub open spec fn database_passes<E, C>(
    events: Seq<(WorkerEventView<E, C>, i64)>,
    dbs: Seq<Database>,
) -> bool {
    &&& dbs.len() == events.len() + 1
    &&& forall|k: int| 0 <= k < events.len() ==> #[trigger] database_passes_at(events, dbs, k)
}

/// The queue with an entry of it marked as being processed since `time`.
pub open spec fn with_marked(
    queue: Map<i64, Entry>,
    rowid: i64,
    time: i64,
) -> Map<i64, Entry> {
    queue.insert(
        rowid,
        Entry {
            track_id: queue[rowid].track_id,
            enqueued_at: queue[rowid].enqueued_at,
            status: EntryStatus::Processing,
            attempts: queue[rowid].attempts + 1,
            last_attempt_at: Some(time),
        },
    )
}

/// The queue with an entry of it pending, but with one attempt more, made at `time`.
pub open spec fn with_one_attempt_more(
    queue: Map<i64, Entry>,
    rowid: i64,
    time: i64,
) -> Map<i64, Entry> {
    queue.insert(
        rowid,
        Entry {
            track_id: queue[rowid].track_id,
            enqueued_at: queue[rowid].enqueued_at,
            status: EntryStatus::Pending,
            attempts: queue[rowid].attempts + 1,
            last_attempt_at: Some(time),
        },
    )
}

/// The transaction for the track that was fetched in this round has taken the catalogue
/// from `first` to `last`, by the replies since.
pub open spec fn track_led<E, C>(
    events: Seq<(WorkerEventView<E, C>, i64)>,
    r: int,
    i: int,
    first: Catalogue,
    last: Catalogue,
) -> bool {
    let f = fetch_of(events, r, i);
    exists|states: Seq<Catalogue>|
        {
            &&& #[trigger] saving_passes(
                events[f].0->TrackFetched_0->Ok_0,
                replies_in(events, f + 1, i),
                states,
            )
            &&& states[0] == first
            &&& states.last() == last
        }
}

/// What the database holds in front of the event `i` of a round that began with `dbs[r]`.
pub open spec fn world_holds<E, C>(
    events: Seq<(WorkerEventView<E, C>, i64)>,
    dbs: Seq<Database>,
    r: int,
    i: int,
) -> bool {
    let (first, kept, open) = (dbs[r].kept, dbs[i].kept, dbs[i].open);
    let (at, c) = (selection_of(events, r, i), commit_of(events, r, i));
    let (item, time) = (item_at(events, at), events[at].1);
    let marked = World {
        queue: with_marked(first.queue, item.rowid, time),
        catalogue: first.catalogue,
    };
    let taken = selects(first.queue, Some(item));
    match phase_at(events, i) {
        PhaseView::Authorizing => false,
        PhaseView::Taking { take } => {
            &&& kept == first
            &&& match take {
                TakingView::Opening => true,
                TakingView::Selecting => open == first,
                TakingView::Marking { .. } => taken && open == first,
                TakingView::Committing { taken: Some(_) } => taken && open == marked,
                TakingView::Committing { taken: None } => {
                    selects(first.queue, None) && open == first
                },
                _ => true,
            }
        },
        PhaseView::Fetching { .. } => taken && kept == marked,
        PhaseView::Saving { save, .. } => {
            &&& taken
            &&& kept == marked
            &&& if save.stage == Stage::Opening {
                track_led(events, r, i, first.catalogue, first.catalogue)
            } else {
                &&& open.queue == marked.queue
                &&& track_led(events, r, i, first.catalogue, open.catalogue)
            }
        },
        PhaseView::Removing { .. } => {
            &&& taken
            &&& kept.queue == marked.queue
            &&& if is_object_id(item.track_id) {
                track_led(events, r, i, first.catalogue, kept.catalogue)
            } else {
                kept.catalogue == first.catalogue
            }
        },
        PhaseView::Resetting { .. } => taken && kept == marked,
        PhaseView::Resting => round_is_over(events, dbs, r, i),
    }
}

/// What a round has made of the tables, from the beginning of its look at the queue to its
/// rest. Where no entry was taken, nothing has changed, and where the look at the queue
/// went through none was pending. Otherwise the entry taken is the one that was pending
/// with the lowest row id. It is gone where its id is no track id or its track is saved,
/// and pending again with one attempt more otherwise; where the statement for that failed
/// it is still marked. The catalogue has been filled with the track that was fetched under
/// the entry's id where that is saved, and is as it was otherwise.
pub open spec fn round_is_over<E, C>(
    events: Seq<(WorkerEventView<E, C>, i64)>,
    dbs: Seq<Database>,
    r: int,
    i: int,
) -> bool {
    let (first, kept) = (dbs[r].kept, dbs[i].kept);
    let (at, c) = (selection_of(events, r, i), commit_of(events, r, i));
    let (item, time) = (item_at(events, at), events[at].1);
    let settled = events[settling_of(events, r, i)].0->Ran_0 is Ok;
    let saved = is_object_id(item.track_id) && track_came_to(events, r, i, Stage::Saved);
    if c == -1 {
        kept == first
    } else if at == -1 {
        kept == first && selects(first.queue, None)
    } else {
        &&& selects(first.queue, Some(item))
        &&& kept.queue == if !settled {
            with_marked(first.queue, item.rowid, time)
        } else if !is_object_id(item.track_id) || saved {
            first.queue.remove(item.rowid)
        } else {
            with_one_attempt_more(first.queue, item.rowid, time)
        }
        &&& if saved {
            track_led(events, r, i, first.catalogue, kept.catalogue)
        } else {
            kept.catalogue == first.catalogue
        }
    }
}

proof fn lemma_queue_statement_leaves_catalogue(
    s: StatementView,
    before: Catalogue,
    after: Catalogue,
)
    requires
        ({
            let n = s.sql.len();
            n == 115 || n == 48 || n == 66
        }),
        catalogue_effect(s, before, after),
    ensures
        after == before,
{
    lemma_catalogue_texts();
}

proof fn lemma_catalogue_statement_leaves_queue(
    s: StatementView,
    before: Map<i64, Entry>,
    after: Map<i64, Entry>,
)
    requires
        ({
            let n = s.sql.len();
            n == 84 || n == 215 || n == 78 || n == 235 || n == 104 || n == 77
        }),
        queue_effect(s, before, after),
    ensures
        after == before,
{
    lemma_queue_texts();
}

proof fn lemma_track_leads_on<E, C>(
    events: Seq<(WorkerEventView<E, C>, i64)>,
    r: int,
    i: int,
    first: Catalogue,
    before: Catalogue,
    after: Catalogue,
)
    requires
        r <= i < events.len(),
        0 <= fetch_of(events, r, i) < i,
        !is_fetch(events, i),
        track_led(events, r, i, first, before),
        ({
            let f = fetch_of(events, r, i);
            let track = events[f].0->TrackFetched_0->Ok_0;
            let request = saving_request(saving_run(track, replies_in(events, f + 1, i)));
            if events[i].0 is Transacted && request is Some && grants(
                request->0,
                events[i].0->Transacted_0,
            ) {
                request_effect(request->0, read_in(events[i].0->Transacted_0), before, after)
            } else {
                after == before
            }
        }),
    ensures
        track_led(events, r, i + 1, first, after),
{
    let f = fetch_of(events, r, i);
    assert(fetch_of(events, r, i + 1) == f);
    let track = events[f].0->TrackFetched_0->Ok_0;
    let replies = replies_in(events, f + 1, i);
    let states = choose|states: Seq<Catalogue>|
        {
            &&& #[trigger] saving_passes(track, replies, states)
            &&& states[0] == first
            &&& states.last() == before
        };
    lemma_passes_len(track, replies, states);
    if events[i].0 is Transacted {
        let more = replies.push((events[i].0->Transacted_0, events[i].1));
        let onward = states.push(after);
        assert(more.drop_last() =~= replies);
        assert(onward.drop_last() =~= states);
        assert(replies_in(events, f + 1, i + 1) == more);
        assert(saving_passes(track, more, onward));
    } else {
        assert(replies_in(events, f + 1, i + 1) == replies);
        assert(saving_passes(track, replies_in(events, f + 1, i + 1), states));
    }
}

proof fn lemma_passes_len<E>(
    track: TrackView,
    replies: Seq<(ReplyView<E>, i64)>,
    states: Seq<Catalogue>,
)
    requires
        saving_passes(track, replies, states),
    ensures
        states.len() == replies.len() + 1,
{
}

#[verifier::spinoff_prover]
proof fn lemma_taking_goes_on_in_the_world<E, C>(
    events: Seq<(WorkerEventView<E, C>, i64)>,
    dbs: Seq<Database>,
    r: int,
    i: int,
)
    requires
        in_round(events, r, i + 1),
        r <= i,
        history_holds(events, r, i),
        history_holds(events, r, i + 1),
        phase_is_open(phase_at(events, i)),
        world_holds(events, dbs, r, i),
        database_passes_at(events, dbs, i),
        phase_at(events, i) is Taking,
    ensures
        world_holds(events, dbs, r, i + 1),
{
    lemma_queue_texts();
    let (event, clock) = (events[i].0, events[i].1);
    assert(phase_at(events, i + 1) == worker_after(phase_at(events, i), event, clock));
    let action = worker_action(phase_at(events, i));
    if let WorkerActionView::Transact(RequestView::Execute(s)) = action {
        if event is Transacted && event->Transacted_0 is Executed {
            lemma_queue_statement_leaves_catalogue(
                s,
                dbs[i].open.catalogue,
                dbs[i + 1].open.catalogue,
            );
        }
    }
}

#[verifier::spinoff_prover]
proof fn lemma_fetching_goes_on_in_the_world<E, C>(
    events: Seq<(WorkerEventView<E, C>, i64)>,
    dbs: Seq<Database>,
    r: int,
    i: int,
)
    requires
        in_round(events, r, i + 1),
        r <= i,
        history_holds(events, r, i),
        history_holds(events, r, i + 1),
        world_holds(events, dbs, r, i),
        database_passes_at(events, dbs, i),
        phase_at(events, i) is Fetching,
    ensures
        world_holds(events, dbs, r, i + 1),
{
    let (event, clock) = (events[i].0, events[i].1);
    assert(phase_at(events, i + 1) == worker_after(phase_at(events, i), event, clock));
    let first = dbs[r].kept.catalogue;
    if event is TrackFetched && event->TrackFetched_0 is Ok {
        let track = event->TrackFetched_0->Ok_0;
        assert(fetch_of(events, r, i + 1) == i);
        assert(replies_in(events, i + 1, i + 1) =~= Seq::empty());
        assert(saving_passes(track, replies_in(events, i + 1, i + 1), seq![first]));
        assert(track_led(events, r, i + 1, first, first));
    }
}

#[verifier::spinoff_prover]
proof fn lemma_saving_goes_on_in_the_world<E, C>(
    events: Seq<(WorkerEventView<E, C>, i64)>,
    dbs: Seq<Database>,
    r: int,
    i: int,
)
    requires
        in_round(events, r, i + 1),
        r <= i,
        fetched_tracks_fit(events),
        history_holds(events, r, i),
        history_holds(events, r, i + 1),
        phase_is_open(phase_at(events, i)),
        world_holds(events, dbs, r, i),
        database_passes_at(events, dbs, i),
        phase_at(events, i) is Saving,
    ensures
        world_holds(events, dbs, r, i + 1),
{
    let (event, clock) = (events[i].0, events[i].1);
    assert(phase_at(events, i + 1) == worker_after(phase_at(events, i), event, clock));
    let f = fetch_of(events, r, i);
    let track = events[f].0->TrackFetched_0->Ok_0;
    let replies = replies_in(events, f + 1, i);
    lemma_saving_run(track, replies);
    let save = phase_at(events, i)->save;
    let request = saving_request(save);
    let first = dbs[r].kept.catalogue;
    assert(!is_fetch(events, i));
    assert(!is_selection(events, i));
    lemma_catalogue_texts();
    if save.stage == Stage::Opening {
        lemma_track_leads_on(events, r, i, first, first, first);
    } else {
        if event is Transacted && grants(request->0, event->Transacted_0) {
            if let RequestView::Execute(s) = request->0 {
                lemma_catalogue_statement_leaves_queue(s, dbs[i].open.queue, dbs[i + 1].open.queue);
            }
        }
        lemma_track_leads_on(
            events,
            r,
            i,
            first,
            dbs[i].open.catalogue,
            dbs[i + 1].open.catalogue,
        );
    }
}

#[verifier::spinoff_prover]
proof fn lemma_settling_goes_on_in_the_world<E, C>(
    events: Seq<(WorkerEventView<E, C>, i64)>,
    dbs: Seq<Database>,
    r: int,
    i: int,
)
    requires
        in_round(events, r, i + 1),
        r <= i,
        fetched_tracks_fit(events),
        history_holds(events, r, i),
        history_holds(events, r, i + 1),
        world_holds(events, dbs, r, i),
        database_passes_at(events, dbs, i),
        phase_at(events, i) is Removing || phase_at(events, i) is Resetting,
    ensures
        world_holds(events, dbs, r, i + 1),
{
    let (event, clock) = (events[i].0, events[i].1);
    assert(phase_at(events, i + 1) == worker_after(phase_at(events, i), event, clock));
    let f = fetch_of(events, r, i);
    let first = dbs[r].kept;
    let item = item_at(events, selection_of(events, r, i));
    assert(!is_fetch(events, i) && !is_selection(events, i) && !is_commit(events, i));
    lemma_queue_texts();
    if event is Ran && event->Ran_0 is Ok {
        let s = worker_action(phase_at(events, i))->Run_0;
        lemma_queue_statement_leaves_catalogue(s, dbs[i].kept.catalogue, dbs[i + 1].kept.catalogue);
        assert(first.queue.contains_key(item.rowid));
        assert(with_marked(first.queue, item.rowid, 0).remove(item.rowid) =~= first.queue.remove(
            item.rowid,
        ));
        assert(dbs[i + 1].kept.queue =~= if phase_at(events, i) is Removing {
            first.queue.remove(item.rowid)
        } else {
            with_one_attempt_more(
                first.queue,
                item.rowid,
                events[selection_of(events, r, i)].1,
            )
        });
    }
    if event is Ran {
        assert(is_settling(events, i));
        assert(settling_of(events, r, i + 1) == i);
    }
    if phase_at(events, i) is Removing && is_object_id(item.track_id) {
        let track = events[f].0->TrackFetched_0->Ok_0;
        lemma_saving_run(track, replies_in(events, f + 1, i));
        lemma_track_leads_on(
            events,
            r,
            i,
            first.catalogue,
            dbs[i].kept.catalogue,
            dbs[i].kept.catalogue,
        );
    }
    if f != -1 && events[f].0->TrackFetched_0 is Ok {
        lemma_over_stays(events, r, i);
    }
}

proof fn lemma_over_stays<E, C>(events: Seq<(WorkerEventView<E, C>, i64)>, r: int, i: int)
    requires
        r <= i < events.len(),
        0 <= fetch_of(events, r, i) < i,
        !is_fetch(events, i),
        ({
            let f = fetch_of(events, r, i);
            let track = events[f].0->TrackFetched_0->Ok_0;
            is_over(saving_run(track, replies_in(events, f + 1, i)).stage)
        }),
    ensures
        track_came_to(events, r, i + 1, Stage::Saved) == track_came_to(events, r, i, Stage::Saved),
{
    let f = fetch_of(events, r, i);
    let replies = replies_in(events, f + 1, i);
    if events[i].0 is Transacted {
        let more = replies.push((events[i].0->Transacted_0, events[i].1));
        assert(more.drop_last() =~= replies);
    }
}

#[verifier::spinoff_prover]
proof fn lemma_resting_goes_on_in_the_world<E, C>(
    events: Seq<(WorkerEventView<E, C>, i64)>,
    dbs: Seq<Database>,
    r: int,
    i: int,
)
    requires
        in_round(events, r, i + 1),
        r <= i,
        fetched_tracks_fit(events),
        history_holds(events, r, i),
        history_holds(events, r, i + 1),
        world_holds(events, dbs, r, i),
        database_passes_at(events, dbs, i),
        phase_at(events, i) is Resting,
    ensures
        world_holds(events, dbs, r, i + 1),
{
    let (event, clock) = (events[i].0, events[i].1);
    assert(phase_at(events, i + 1) == worker_after(phase_at(events, i), event, clock));
    assert(!ends_rest(events, i));
    assert(!is_fetch(events, i) && !is_selection(events, i) && !is_commit(events, i));
    assert(!is_settling(events, i));
    assert(dbs[i + 1] == dbs[i]);
    let f = fetch_of(events, r, i);
    let first = dbs[r].kept;
    let item = item_at(events, selection_of(events, r, i));
    if f != -1 && events[f].0->TrackFetched_0 is Ok {
        lemma_over_stays(events, r, i);
        if track_came_to(events, r, i, Stage::Saved) {
            let track = events[f].0->TrackFetched_0->Ok_0;
            lemma_saving_run(track, replies_in(events, f + 1, i));
            lemma_track_leads_on(
                events,
                r,
                i,
                first.catalogue,
                dbs[i].kept.catalogue,
                dbs[i].kept.catalogue,
            );
        }
    }
}

proof fn lemma_world_holds<E, C>(
    events: Seq<(WorkerEventView<E, C>, i64)>,
    dbs: Seq<Database>,
    r: int,
    i: int,
)
    requires
        in_round(events, r, i),
        fetched_tracks_fit(events),
        database_passes(events, dbs),
    ensures
        world_holds(events, dbs, r, i),
    decreases i,
{
    if i > r {
        let k = i - 1;
        assert(in_round(events, r, k));
        lemma_world_holds(events, dbs, r, k);
        law_phase_tells_the_round(events, r, k);
        law_phase_tells_the_round(events, r, i);
        lemma_phase_is_open(events, k);
        assert(database_passes_at(events, dbs, k));
        match phase_at(events, k) {
            PhaseView::Authorizing => {},
            PhaseView::Taking { .. } => {
                lemma_taking_goes_on_in_the_world(events, dbs, r, k);
            },
            PhaseView::Fetching { .. } => {
                lemma_fetching_goes_on_in_the_world(events, dbs, r, k);
            },
            PhaseView::Saving { .. } => {
                lemma_saving_goes_on_in_the_world(events, dbs, r, k);
            },
            PhaseView::Resting => {
                lemma_resting_goes_on_in_the_world(events, dbs, r, k);
            },
            _ => {
                lemma_settling_goes_on_in_the_world(events, dbs, r, k);
            },
        }
    }
}

/// What one round makes of the tables, over any run of the worker in which the database
/// carries out what the worker asks for, statement by statement and by their texts and
/// values: as `round_is_over` says.
pub proof fn law_round_serves_one_entry<E, C>(
    events: Seq<(WorkerEventView<E, C>, i64)>,
    dbs: Seq<Database>,
    r: int,
    i: int,
)
    requires
        in_round(events, r, i),
        fetched_tracks_fit(events),
        database_passes(events, dbs),
        phase_at(events, i) == PhaseView::<E>::Resting,
    ensures
        round_is_over(events, dbs, r, i),
{
    lemma_world_holds(events, dbs, r, i);
}

} // verus!
