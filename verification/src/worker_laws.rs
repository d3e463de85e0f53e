//! What holds of the worker, whatever happens to it. What it makes of the queue and of
//! the catalogue holds if SQLite behaves as [`queue_model`](crate::queue_model) and
//! [`catalogue_model`](crate::catalogue_model) say.

use vstd::prelude::*;

verus! {

use crate::catalog::TrackView;
use crate::catalog_sql::track_key;
use crate::catalogue_laws::{law_entering_adds_the_track, law_saving_is_all_or_nothing};
use crate::catalogue_model::{
    album_added,
    artist_rows,
    catalogue_left,
    enters,
    image_rows,
    link_rows,
    saving_passes,
    track_row,
    tracks_with,
    with_markets,
    Catalogue,
};
use crate::ids::is_object_id;
use crate::queue::{taking_request, TakingView};
use crate::queue_laws::{law_statements_are_distinct, law_take_then_remove, law_take_then_reset};
use crate::queue_model::{
    counted_entry,
    op_effect,
    op_statement,
    selects,
    tracks_distinct,
    Entry,
    QueueOp,
};
use crate::save::{
    saving_after,
    saving_request,
    saving_start,
    stage_fits,
    SavingView,
    Stage,
};
use crate::save_laws::{lemma_saving_run, lists_fit, read_by, stage_after_all};
use crate::sql::{QueuedView, ReplyView};
use crate::tables::{grants, row_added, rows_added};
use crate::worker::{
    phase_after_save,
    phase_after_take,
    phase_is_open,
    worker_action,
    worker_after,
    PhaseView,
    WorkerAction,
    WorkerActionView,
    WorkerEvent,
    WorkerEventView,
    REST_SECONDS,
};

/// The queue entry that the worker has taken and not yet settled.
pub open spec fn held_entry<E>(phase: PhaseView<E>) -> Option<i64> {
    match phase {
        PhaseView::Fetching { rowid, .. } => Some(rowid),
        PhaseView::Saving { rowid, .. } => Some(rowid),
        PhaseView::Removing { rowid } => Some(rowid),
        PhaseView::Resetting { rowid } => Some(rowid),
        _ => None,
    }
}

/// The queue entry that the worker is about to take: all that is left is to commit.
pub open spec fn entry_being_taken<E>(phase: PhaseView<E>) -> Option<QueuedView> {
    match phase {
        PhaseView::Taking { take: TakingView::Committing { taken } } => taken,
        _ => None,
    }
}

/// The worker always has something to do.
pub proof fn law_worker_never_stalls<E, C>(
    phase: PhaseView<E>,
    event: WorkerEventView<E, C>,
    clock: i64,
)
    requires
        phase_is_open(phase),
    ensures
        phase_is_open(worker_after(phase, event, clock)),
{
}

/// An entry that the worker has taken it keeps until it has run the statement that
/// removes it or the one that resets it: no entry is left marked and forgotten. And
/// it takes one only where it holds none, by committing the transaction for it.
pub proof fn law_taken_entry_is_settled<E, C>(
    phase: PhaseView<E>,
    event: WorkerEventView<E, C>,
    clock: i64,
)
    requires
        phase_is_open(phase),
    ensures
        ({
            let next = worker_after(phase, event, clock);
            match held_entry(phase) {
                Some(rowid) => {
                    ||| held_entry(next) == Some(rowid)
                    ||| {
                        &&& next == PhaseView::<E>::Resting
                        &&& event is Ran
                        &&& {
                            ||| worker_action(phase) == WorkerActionView::Run(
                                op_statement(QueueOp::Remove { rowid }),
                            )
                            ||| worker_action(phase) == WorkerActionView::Run(
                                op_statement(QueueOp::Reset { rowid }),
                            )
                        }
                    }
                },
                None => held_entry(next) is Some ==> {
                    &&& entry_being_taken(phase) is Some
                    &&& held_entry(next) == Some(entry_being_taken(phase)->0.rowid)
                    &&& event == WorkerEventView::<E, C>::Transacted(ReplyView::Committed)
                },
            }
        }),
{
}

/// An entry is removed only where its id is no track id, or where its track has been
/// committed to the catalogue.
pub proof fn law_removal_is_earned<E, C>(
    phase: PhaseView<E>,
    event: WorkerEventView<E, C>,
    clock: i64,
    rowid: i64,
)
    requires
        phase_is_open(phase),
        worker_after(phase, event, clock) == (PhaseView::<E>::Removing { rowid }),
        phase != (PhaseView::<E>::Removing { rowid }),
    ensures
        ({
            ||| {
                &&& entry_being_taken(phase) is Some
                &&& entry_being_taken(phase)->0.rowid == rowid
                &&& !is_object_id(entry_being_taken(phase)->0.track_id)
                &&& event == WorkerEventView::<E, C>::Transacted(ReplyView::Committed)
            }
            ||| {
                &&& phase is Saving
                &&& phase->Saving_rowid == rowid
                &&& phase->save.stage == Stage::Committing
                &&& event == WorkerEventView::<E, C>::Transacted(ReplyView::Committed)
            }
        }),
{
}

/// An entry is made pending again only where its track could not be fetched, or where
/// a step of entering it failed.
pub proof fn law_reset_is_earned<E, C>(
    phase: PhaseView<E>,
    event: WorkerEventView<E, C>,
    clock: i64,
    rowid: i64,
)
    requires
        phase_is_open(phase),
        worker_after(phase, event, clock) == (PhaseView::<E>::Resetting { rowid }),
        phase != (PhaseView::<E>::Resetting { rowid }),
    ensures
        ({
            ||| {
                &&& phase is Fetching
                &&& phase->Fetching_rowid == rowid
                &&& event is TrackFetched
                &&& event->TrackFetched_0 is Err
            }
            ||| {
                &&& phase is Saving
                &&& phase->Saving_rowid == rowid
                &&& event is Transacted
                &&& event->Transacted_0 is Failed
            }
        }),
{
}

/// What the worker is at when so many events have arrived, each with its time, since it
/// was started.
pub open spec fn phase_at<E, C>(events: Seq<(WorkerEventView<E, C>, i64)>, i: int) -> PhaseView<E>
    decreases i,
{
    if i <= 0 {
        PhaseView::Authorizing
    } else {
        worker_after(phase_at(events, i - 1), events[i - 1].0, events[i - 1].1)
    }
}

/// The event `i` ends a look at the queue, with an entry taken or with none.
pub open spec fn ends_look<E, C>(events: Seq<(WorkerEventView<E, C>, i64)>, i: int) -> bool {
    phase_at(events, i) is Taking && !(phase_at(events, i + 1) is Taking)
}

/// The event `i` ends a fetch from Spotify, with a track or with none.
pub open spec fn ends_fetch<E, C>(events: Seq<(WorkerEventView<E, C>, i64)>, i: int) -> bool {
    phase_at(events, i) is Fetching && !(phase_at(events, i + 1) is Fetching)
}

/// The event `i` says that a rest of `REST_SECONDS` is over that the worker has asked
/// for.
pub open spec fn ends_rest<E, C>(events: Seq<(WorkerEventView<E, C>, i64)>, i: int) -> bool {
    &&& worker_action(phase_at(events, i)) == WorkerActionView::Rest(REST_SECONDS)
    &&& events[i].0 is Rested
}

/// A rest has ended between two events.
pub open spec fn rests_between<E, C>(
    events: Seq<(WorkerEventView<E, C>, i64)>,
    i: int,
    j: int,
) -> bool {
    exists|m: int| i < m < j && #[trigger] ends_rest(events, m)
}

spec fn looked<E>(phase: PhaseView<E>) -> bool {
    phase is Fetching || fetched(phase)
}

spec fn fetched<E>(phase: PhaseView<E>) -> bool {
    phase is Saving || phase is Removing || phase is Resetting || phase is Resting
}

proof fn lemma_no_look_without_rest<E, C>(
    events: Seq<(WorkerEventView<E, C>, i64)>,
    i: int,
    j: int,
)
    requires
        0 <= i < j,
        looked(phase_at(events, i + 1)),
        !rests_between(events, i, j),
    ensures
        looked(phase_at(events, j)),
        fetched(phase_at(events, i + 1)) ==> fetched(phase_at(events, j)),
    decreases j,
{
    if j > i + 1 {
        assert(!rests_between(events, i, j - 1)) by {
            if rests_between(events, i, j - 1) {
                let m = choose|m: int| i < m < j - 1 && #[trigger] ends_rest(events, m);
                assert(ends_rest(events, m));
            }
        }
        lemma_no_look_without_rest(events, i, j - 1);
        assert(!ends_rest(events, j - 1));
    }
}

/// Over the whole run of the worker, whatever events arrive: between any two looks at
/// the queue, and between any two fetches from Spotify, lies a rest that has ended.
pub proof fn law_worker_rests_between_rounds<E, C>(
    events: Seq<(WorkerEventView<E, C>, i64)>,
    i: int,
    j: int,
)
    requires
        0 <= i < j < events.len(),
    ensures
        ends_look(events, i) && ends_look(events, j) ==> rests_between(events, i, j),
        ends_fetch(events, i) && ends_fetch(events, j) ==> rests_between(events, i, j),
{
    if !rests_between(events, i, j) && (ends_look(events, i) || ends_fetch(events, i)) {
        lemma_no_look_without_rest(events, i, j);
    }
}

/// What fetching a track and entering it came to: the track, or why it could not be
/// fetched, and the replies to the steps of its transaction.
pub struct Attempt<E, C> {
    pub track: Result<TrackView, C>,
    pub replies: Seq<(ReplyView<E>, i64)>,
}

/// The attempt ran to its end: either there was no track, or its transaction is over.
pub open spec fn attempt_is_over<E, C>(attempt: Attempt<E, C>) -> bool {
    match attempt.track {
        Ok(track) => {
            let stage = stage_after_all(track, Stage::Opening, attempt.replies);
            stage == Stage::Saved || stage == Stage::Failed
        },
        Err(_) => true,
    }
}

/// The attempt brought the track into the catalogue.
pub open spec fn attempt_saved<E, C>(attempt: Attempt<E, C>) -> bool {
    match attempt.track {
        Ok(track) => stage_after_all(track, Stage::Opening, attempt.replies) == Stage::Saved,
        Err(_) => false,
    }
}

/// The phase behind a row of replies, each with the time it arrived.
pub open spec fn phase_after_replies<E>(
    phase: PhaseView<E>,
    replies: Seq<(ReplyView<E>, i64)>,
) -> PhaseView<E>
    decreases replies.len(),
{
    if replies.len() == 0 {
        phase
    } else {
        worker_after(
            phase_after_replies(phase, replies.drop_last()),
            WorkerEventView::<E, ()>::Transacted(replies.last().0),
            replies.last().1,
        )
    }
}

/// The phase that an attempt brings the worker to which has just taken an entry. The
/// track arrives at the time `clock`.
pub open spec fn phase_after_attempt<E, C>(
    item: QueuedView,
    attempt: Attempt<E, C>,
    clock: i64,
) -> PhaseView<E> {
    phase_after_replies(
        worker_after(
            phase_after_take(TakingView::Taken { taken: Some(item) }),
            WorkerEventView::TrackFetched(attempt.track),
            clock,
        ),
        attempt.replies,
    )
}

proof fn lemma_settling_stays<E>(phase: PhaseView<E>, replies: Seq<(ReplyView<E>, i64)>)
    requires
        phase is Removing || phase is Resetting,
    ensures
        phase_after_replies(phase, replies) == phase,
    decreases replies.len(),
{
    if replies.len() > 0 {
        lemma_settling_stays(phase, replies.drop_last());
    }
}

spec fn saving_after_all<E>(
    track: TrackView,
    replies: Seq<(ReplyView<E>, i64)>,
) -> SavingView<E>
    decreases replies.len(),
{
    if replies.len() == 0 {
        saving_start(track)
    } else {
        saving_after(
            saving_after_all(track, replies.drop_last()),
            replies.last().0,
            replies.last().1,
        )
    }
}

proof fn lemma_saving_follows_stages<E>(
    rowid: i64,
    track: TrackView,
    replies: Seq<(ReplyView<E>, i64)>,
)
    ensures
        saving_after_all(track, replies).track == track,
        saving_after_all(track, replies).stage == stage_after_all(track, Stage::Opening, replies),
        phase_after_replies(
            PhaseView::Saving { rowid, save: saving_start::<E>(track) },
            replies,
        ) == phase_after_save(rowid, saving_after_all(track, replies)),
    decreases replies.len(),
{
    if replies.len() > 0 {
        lemma_saving_follows_stages(rowid, track, replies.drop_last());
    }
}

/// One entry from its taking to its settling, with what that makes of the queue. An
/// entry with a malformed id, and one whose track was saved, is gone from the queue
/// and nothing else in it has changed. Any other entry is pending again, the next to
/// be taken, with one attempt more. All this where the statement that settles the entry
/// goes through.
pub proof fn law_entry_is_gone_or_pending_again<E, C>(
    queue: Map<i64, Entry>,
    item: QueuedView,
    now: i64,
    marked: Map<i64, Entry>,
    attempt: Attempt<E, C>,
    clock: i64,
    op: QueueOp,
    after: Map<i64, Entry>,
)
    requires
        tracks_distinct(queue),
        selects(queue, Some(item)),
        op_effect((QueueOp::Mark { rowid: item.rowid, now }), queue, marked),
        attempt_is_over(attempt),
        worker_action(phase_after_attempt(item, attempt, clock)) == WorkerActionView::Run(
            op_statement(op),
        ),
        op_effect(op, marked, after),
    ensures
        !is_object_id(item.track_id) || attempt_saved(attempt) ==> after == queue.remove(
            item.rowid,
        ),
        is_object_id(item.track_id) && !attempt_saved(attempt) ==> selects(after, Some(item)),
        is_object_id(item.track_id) && !attempt_saved(attempt) ==> after == queue.insert(
            item.rowid,
            counted_entry(queue[item.rowid], now),
        ),
{
    let fetched = worker_after(
        phase_after_take(TakingView::Taken { taken: Some(item) }),
        WorkerEventView::TrackFetched(attempt.track),
        clock,
    );
    if fetched is Saving {
        lemma_saving_follows_stages(item.rowid, attempt.track->Ok_0, attempt.replies);
    } else {
        lemma_settling_stays(fetched, attempt.replies);
    }
    if is_object_id(item.track_id) && !attempt_saved(attempt) {
        law_statements_are_distinct(op, QueueOp::Reset { rowid: item.rowid });
        law_take_then_reset(queue, item, now, marked, after);
    } else {
        law_statements_are_distinct(op, QueueOp::Remove { rowid: item.rowid });
        law_take_then_remove(queue, item, now, marked, after);
    }
}

/// What one attempt makes of the catalogue. One that saved its track has added a row for
/// the track and all that belongs to it, with the time at which its transaction was
/// opened and the row ids that it has read; any other leaves the catalogue as it was. So
/// an entry whose id is a track id leaves the queue only once a row for the track that
/// was fetched for it has been added.
pub proof fn law_attempt_fills_the_catalogue_or_leaves_it<E, C>(
    track: TrackView,
    attempt: Attempt<E, C>,
    states: Seq<Catalogue>,
)
    requires
        lists_fit(track),
        attempt.track == Ok::<TrackView, C>(track),
        saving_passes(track, attempt.replies, states),
    ensures
        ({
            let (first, left) = (states[0], catalogue_left(track, attempt.replies, states));
            let (now, rowids) = read_by(track, attempt.replies);
            if attempt_saved(attempt) {
                &&& row_added(first.tracks, left.tracks, track_row(track, now, rowids.album))
                &&& tracks_with(left.tracks, track_key(track)).contains(rowids.track)
                &&& album_added(first.albums, left.albums, track.album, now)
                &&& rows_added(first.artists, left.artists, artist_rows(track.artists, now))
                &&& left.images == first.images + image_rows(track.album.images, rowids.album)
                &&& left.links == first.links + link_rows(rowids.track, rowids.artists)
                &&& left.markets == with_markets(first.markets)
            } else {
                left == first
            }
        }),
{
    law_saving_is_all_or_nothing(track, attempt.replies, states);
    lemma_saving_run(track, attempt.replies);
    if attempt_saved(attempt) {
        let left = catalogue_left(track, attempt.replies, states);
        let (now, rowids) = read_by(track, attempt.replies);
        let passed = choose|passed: Seq<Catalogue>| #[trigger]
            enters(track, now, rowids, passed) && passed[0] == states[0] && passed.last() == left;
        law_entering_adds_the_track(track, now, rowids, passed);
    }
}

/// The event is what came of the action.
pub open spec fn answers<E, C>(action: WorkerActionView, event: WorkerEventView<E, C>) -> bool {
    match action {
        WorkerActionView::RequestToken => event is TokenRequested,
        WorkerActionView::Transact(request) => event is Transacted && (grants(
            request,
            event->Transacted_0,
        ) || event->Transacted_0 is Failed),
        WorkerActionView::FetchTrack(_) => event is TrackFetched,
        WorkerActionView::Run(_) => event is Ran,
        WorkerActionView::Rest(_) => event is Rested,
    }
}

/// An event that is what came of the action takes the worker on; any other changes
/// nothing. From its token and from its rest the worker goes on to look at the queue.
/// What it asks for in a transaction is what the transaction asks for.
pub proof fn law_only_an_answer_takes_the_worker_on<E, C>(
    phase: PhaseView<E>,
    event: WorkerEventView<E, C>,
    clock: i64,
)
    requires
        phase_is_open(phase),
        phase matches PhaseView::Saving { save, .. } ==> lists_fit(save.track) && stage_fits(
            save.track,
            save.stage,
        ),
    ensures
        ({
            let next = worker_after(phase, event, clock);
            &&& answers(worker_action(phase), event) <==> next != phase
            &&& phase is Authorizing && event is TokenRequested ==> next == (
            PhaseView::<E>::Taking { take: TakingView::Opening })
            &&& phase is Resting && event is Rested ==> next == (PhaseView::<E>::Taking {
                take: TakingView::Opening,
            })
            &&& phase matches PhaseView::Taking { take } ==> worker_action(phase)
                == WorkerActionView::Transact(taking_request(take)->0)
            &&& phase matches PhaseView::Saving { save, .. } ==> worker_action(phase)
                == WorkerActionView::Transact(saving_request(save)->0)
            &&& phase is Resting <==> worker_action(phase) is Rest
            &&& phase is Resting ==> worker_action(phase) == WorkerActionView::Rest(3)
        }),
{
}

/// What is to be done is seen as it is, with its own request, id, statement or seconds.
pub proof fn law_worker_action_is_seen_as_it_is(action: WorkerAction)
    ensures
        match action {
            WorkerAction::RequestToken => action@ == WorkerActionView::RequestToken,
            WorkerAction::Transact(request) => action@ == WorkerActionView::Transact(request@),
            WorkerAction::FetchTrack(id) => action@ == WorkerActionView::FetchTrack(id@),
            WorkerAction::Run(s) => action@ == WorkerActionView::Run(s@),
            WorkerAction::Rest(seconds) => action@ == WorkerActionView::Rest(seconds),
        },
{
}

/// What came of it is seen as it is, with its own reply, track or outcome.
pub proof fn law_worker_event_is_seen_as_it_is<E, C>(event: WorkerEvent<E, C>)
    ensures
        match event {
            WorkerEvent::TokenRequested(outcome) => event@
                == WorkerEventView::<E, C>::TokenRequested(outcome),
            WorkerEvent::Transacted(reply) => event@ == WorkerEventView::<E, C>::Transacted(reply@),
            WorkerEvent::TrackFetched(Ok(track)) => event@
                == WorkerEventView::<E, C>::TrackFetched(Ok(track@)),
            WorkerEvent::TrackFetched(Err(error)) => event@
                == WorkerEventView::<E, C>::TrackFetched(Err(error)),
            WorkerEvent::Ran(outcome) => event@ == WorkerEventView::<E, C>::Ran(outcome),
            WorkerEvent::Rested => event@ == WorkerEventView::<E, C>::Rested,
        },
{
}

} // verus!
