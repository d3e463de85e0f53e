//! The background worker: it takes the queued tracks one by one, fetches each from
//! Spotify and enters it into the catalogue.

use vstd::prelude::*;

use crate::catalog::Track;
use crate::ids::SpotifyId;
use crate::queue::{remove_queued_track, reset_queued_track, take_next_queued_track, Taking};
use crate::save::{save_to_sync_db, Saving, Stage};
use crate::sql::{Reply, Request, Statement};

verus! {

use crate::catalog::TrackView;
use crate::clock::clock_gave;
use crate::ids::is_object_id;
use crate::queue::{remove_statement, reset_statement, taking_after, taking_request, TakingView};
use crate::save::{saving_after, saving_request, saving_start, SavingView};
use crate::sql::{ReplyView, RequestView, StatementView};

/// How long the worker rests between two looks at the queue, in seconds.
pub const REST_SECONDS: u64 = 3;

/// What the worker is at. `E` is what the database calls an error.
#[derive(Debug, PartialEq, Eq)]
pub enum Phase<E> {
    /// It is to ask Spotify for an access token.
    Authorizing,
    /// It takes the next entry off the queue.
    Taking { take: Taking<E> },
    /// It is to fetch the track of the entry that it has taken.
    Fetching { rowid: i64, id: SpotifyId },
    /// It enters the track into the catalogue.
    Saving { rowid: i64, save: Saving<E> },
    /// It is to take the entry out of the queue.
    Removing { rowid: i64 },
    /// It is to make the entry pending again.
    Resetting { rowid: i64 },
    /// It is to rest.
    Resting,
}

/// What the worker is at, the texts as sequences.
pub enum PhaseView<E> {
    Authorizing,
    Taking { take: TakingView<E> },
    Fetching { rowid: i64, id: Seq<char> },
    Saving { rowid: i64, save: SavingView<E> },
    Removing { rowid: i64 },
    Resetting { rowid: i64 },
    Resting,
}

impl<E> View for Phase<E> {
    type V = PhaseView<E>;

    open spec fn view(&self) -> PhaseView<E> {
        match self {
            Phase::Authorizing => PhaseView::Authorizing,
            Phase::Taking { take } => PhaseView::Taking { take: take@ },
            Phase::Fetching { rowid, id } => PhaseView::Fetching { rowid: *rowid, id: id@ },
            Phase::Saving { rowid, save } => PhaseView::Saving { rowid: *rowid, save: save@ },
            Phase::Removing { rowid } => PhaseView::Removing { rowid: *rowid },
            Phase::Resetting { rowid } => PhaseView::Resetting { rowid: *rowid },
            Phase::Resting => PhaseView::Resting,
        }
    }
}

/// The transaction that the worker is in, if it is in one, is not over: it has
/// something to ask for.
pub open spec fn phase_is_open<E>(phase: PhaseView<E>) -> bool {
    match phase {
        PhaseView::Taking { take } => taking_request(take) is Some,
        PhaseView::Saving { save, .. } => saving_request(save) is Some,
        _ => true,
    }
}

/// What is to be done.
#[derive(Debug, PartialEq, Eq)]
pub enum WorkerAction {
    /// Ask Spotify for an access token.
    RequestToken,
    /// Take one step of a transaction on the catalogue.
    Transact(Request),
    /// Fetch the track with this id from Spotify.
    FetchTrack(String),
    /// Execute the statement on the catalogue, by itself.
    Run(Statement),
    /// Rest for so many seconds.
    Rest(u64),
}

/// What is to be done, the texts as sequences.
pub enum WorkerActionView {
    RequestToken,
    Transact(RequestView),
    FetchTrack(Seq<char>),
    Run(StatementView),
    Rest(u64),
}

impl View for WorkerAction {
    type V = WorkerActionView;

    open spec fn view(&self) -> WorkerActionView {
        match self {
            WorkerAction::RequestToken => WorkerActionView::RequestToken,
            WorkerAction::Transact(request) => WorkerActionView::Transact(request@),
            WorkerAction::FetchTrack(id) => WorkerActionView::FetchTrack(id@),
            WorkerAction::Run(statement) => WorkerActionView::Run(statement@),
            WorkerAction::Rest(seconds) => WorkerActionView::Rest(*seconds),
        }
    }
}

/// What came of it. `E` is what the database calls an error, `C` what Spotify's client
/// calls one.
#[derive(Debug, PartialEq, Eq)]
pub enum WorkerEvent<E, C> {
    /// What became of asking Spotify for a token.
    TokenRequested(Result<(), C>),
    /// The answer to one step of a transaction.
    Transacted(Reply<E>),
    /// The track, or why it could not be fetched.
    TrackFetched(Result<Track, C>),
    /// What became of the statement.
    Ran(Result<(), E>),
    /// The rest is over.
    Rested,
}

/// What came of it, the texts as sequences.
pub enum WorkerEventView<E, C> {
    TokenRequested(Result<(), C>),
    Transacted(ReplyView<E>),
    TrackFetched(Result<TrackView, C>),
    Ran(Result<(), E>),
    Rested,
}

impl<E, C> View for WorkerEvent<E, C> {
    type V = WorkerEventView<E, C>;

    open spec fn view(&self) -> WorkerEventView<E, C> {
        match self {
            WorkerEvent::TokenRequested(outcome) => WorkerEventView::TokenRequested(*outcome),
            WorkerEvent::Transacted(reply) => WorkerEventView::Transacted(reply@),
            WorkerEvent::TrackFetched(Ok(track)) => WorkerEventView::TrackFetched(Ok(track@)),
            WorkerEvent::TrackFetched(Err(error)) => WorkerEventView::TrackFetched(Err(*error)),
            WorkerEvent::Ran(outcome) => WorkerEventView::Ran(*outcome),
            WorkerEvent::Rested => WorkerEventView::Rested,
        }
    }
}

/// What is to be done in this phase.
pub open spec fn worker_action<E>(phase: PhaseView<E>) -> WorkerActionView {
    match phase {
        PhaseView::Authorizing => WorkerActionView::RequestToken,
        PhaseView::Taking { take } => WorkerActionView::Transact(taking_request(take)->0),
        PhaseView::Fetching { id, .. } => WorkerActionView::FetchTrack(id),
        PhaseView::Saving { save, .. } => WorkerActionView::Transact(saving_request(save)->0),
        PhaseView::Removing { rowid } => WorkerActionView::Run(remove_statement(rowid)),
        PhaseView::Resetting { rowid } => WorkerActionView::Run(reset_statement(rowid)),
        PhaseView::Resting => WorkerActionView::Rest(REST_SECONDS),
    }
}

/// The phase behind a step of taking an entry. An entry whose id is no track id is
/// removed; where nothing could be taken the worker rests.
pub open spec fn phase_after_take<E>(take: TakingView<E>) -> PhaseView<E> {
    match take {
        TakingView::Taken { taken: Some(item) } => if is_object_id(item.track_id) {
            PhaseView::Fetching { rowid: item.rowid, id: item.track_id }
        } else {
            PhaseView::Removing { rowid: item.rowid }
        },
        TakingView::Taken { taken: None } => PhaseView::Resting,
        TakingView::Failed { .. } => PhaseView::Resting,
        _ => PhaseView::Taking { take },
    }
}

/// The phase behind a step of entering a track. The entry of a track that is saved is
/// removed; where the track could not be saved the entry is made pending again.
pub open spec fn phase_after_save<E>(rowid: i64, save: SavingView<E>) -> PhaseView<E> {
    match save.stage {
        Stage::Saved => PhaseView::Removing { rowid },
        Stage::Failed => PhaseView::Resetting { rowid },
        _ => PhaseView::Saving { rowid, save },
    }
}

/// The phase behind `event`, which arrived at the time `clock`. Whether Spotify gave a
/// token and whether a statement went through makes no difference. An event that does
/// not answer the action changes nothing.
pub open spec fn worker_after<E, C>(
    phase: PhaseView<E>,
    event: WorkerEventView<E, C>,
    clock: i64,
) -> PhaseView<E> {
    match (phase, event) {
        (PhaseView::Authorizing, WorkerEventView::TokenRequested(_)) => PhaseView::Taking {
            take: TakingView::Opening,
        },
        (PhaseView::Taking { take }, WorkerEventView::Transacted(reply)) => phase_after_take(
            taking_after(take, reply, clock),
        ),
        (PhaseView::Fetching { rowid, .. }, WorkerEventView::TrackFetched(Ok(track))) => {
            PhaseView::Saving { rowid, save: saving_start(track) }
        },
        (PhaseView::Fetching { rowid, .. }, WorkerEventView::TrackFetched(Err(_))) => {
            PhaseView::Resetting { rowid }
        },
        (PhaseView::Saving { rowid, save }, WorkerEventView::Transacted(reply)) => phase_after_save(
            rowid,
            saving_after(save, reply, clock),
        ),
        (PhaseView::Removing { .. }, WorkerEventView::Ran(_)) => PhaseView::Resting,
        (PhaseView::Resetting { .. }, WorkerEventView::Ran(_)) => PhaseView::Resting,
        (PhaseView::Resting, WorkerEventView::Rested) => PhaseView::Taking {
            take: TakingView::Opening,
        },
        _ => phase,
    }
}

/// The worker.
#[derive(Debug, PartialEq, Eq)]
pub struct Worker<E> {
    phase: Phase<E>,
}

impl<E> View for Worker<E> {
    type V = PhaseView<E>;

    closed spec fn view(&self) -> PhaseView<E> {
        self.phase@
    }
}

fn settle_take<E>(take: Taking<E>) -> (phase: Phase<E>)
    ensures
        phase@ == phase_after_take(take@),
        phase_is_open(phase@),
{
    match take {
        Taking::Taken { taken: Some(item) } => match SpotifyId::parse(item.track_id.as_str()) {
            Some(id) => Phase::Fetching { rowid: item.rowid, id },
            None => Phase::Removing { rowid: item.rowid },
        },
        Taking::Taken { taken: None } => Phase::Resting,
        Taking::Failed { error } => Phase::Resting,
        take => Phase::Taking { take },
    }
}

fn settle_save<E>(rowid: i64, save: Saving<E>) -> (phase: Phase<E>)
    ensures
        phase@ == phase_after_save(rowid, save@),
        phase_is_open(phase@),
{
    match save.stage() {
        Stage::Saved => Phase::Removing { rowid },
        Stage::Failed => Phase::Resetting { rowid },
        _ => Phase::Saving { rowid, save },
    }
}

impl<E> Worker<E> {
    #[verifier::type_invariant]
    spec fn is_open(self) -> bool {
        phase_is_open(self.phase@)
    }

    /// The worker before it has done anything.
    pub fn new() -> (worker: Worker<E>)
        ensures
            worker@ == PhaseView::<E>::Authorizing,
    {
        Worker { phase: Phase::Authorizing }
    }

    /// What is to be done.
    pub fn action(&self) -> (action: WorkerAction)
        ensures
            action@ == worker_action(self@),
            phase_is_open(self@),
    {
        proof {
            use_type_invariant(self);
        }
        match &self.phase {
            Phase::Authorizing => WorkerAction::RequestToken,
            Phase::Taking { take } => WorkerAction::Transact(take.request().unwrap()),
            Phase::Fetching { rowid, id } => WorkerAction::FetchTrack(id.as_str().to_owned()),
            Phase::Saving { rowid, save } => WorkerAction::Transact(save.request().unwrap()),
            Phase::Removing { rowid } => WorkerAction::Run(remove_queued_track(*rowid)),
            Phase::Resetting { rowid } => WorkerAction::Run(reset_queued_track(*rowid)),
            Phase::Resting => WorkerAction::Rest(REST_SECONDS),
        }
    }
}

/// The worker behind `event`. The clock is read where the transactions need it.
pub fn spotify_worker<E, C>(worker: Worker<E>, event: WorkerEvent<E, C>) -> (next: Worker<E>)
    ensures
        exists|clock: i64|
            {
                &&& 0 <= clock
                &&& clock_gave(clock) || forall|other: i64| #[trigger]
                    worker_after(worker@, event@, other) == next@
                &&& next@ == #[trigger] worker_after(worker@, event@, clock)
            },
{
    proof {
        use_type_invariant(&worker);
    }
    let ghost before = worker@;
    match (worker.phase, event) {
        (Phase::Taking { take }, WorkerEvent::Transacted(reply)) => {
            let ghost (old_take, old_reply) = (take@, reply@);
            let take: Taking<E> = take_next_queued_track(take, reply);
            let ghost clock = choose|clock: i64|
                {
                    &&& 0 <= clock
                    &&& clock_gave(clock) || forall|other: i64| #[trigger]
                        taking_after(old_take, old_reply, other) == take@
                    &&& take@ == #[trigger] taking_after(old_take, old_reply, clock)
                };
            let next = Worker { phase: settle_take(take) };
            assert(next@ == worker_after(before, event@, clock));
            next
        },
        (Phase::Saving { rowid, save }, WorkerEvent::Transacted(reply)) => {
            let ghost (old_save, old_reply) = (save@, reply@);
            let save: Saving<E> = save_to_sync_db(save, reply);
            let ghost clock = choose|clock: i64|
                {
                    &&& 0 <= clock
                    &&& clock_gave(clock) || forall|other: i64| #[trigger]
                        saving_after(old_save, old_reply, other) == save@
                    &&& save@ == #[trigger] saving_after(old_save, old_reply, clock)
                };
            let next = Worker { phase: settle_save(rowid, save) };
            assert(next@ == worker_after(before, event@, clock));
            next
        },
        (phase, event) => {
            let next = Worker {
                phase: match (phase, event) {
                    (Phase::Authorizing, WorkerEvent::TokenRequested(outcome)) => Phase::Taking {
                        take: Taking::Opening,
                    },
                    (Phase::Fetching { rowid, id }, WorkerEvent::TrackFetched(fetched)) => {
                        match fetched {
                            Ok(track) => Phase::Saving { rowid, save: Saving::new(track) },
                            Err(error) => Phase::Resetting { rowid },
                        }
                    },
                    (Phase::Removing { rowid }, WorkerEvent::Ran(outcome)) => Phase::Resting,
                    (Phase::Resetting { rowid }, WorkerEvent::Ran(outcome)) => Phase::Resting,
                    (Phase::Resting, WorkerEvent::Rested) => Phase::Taking {
                        take: Taking::Opening,
                    },
                    (phase, event) => phase,
                },
            };
            assert(next@ == worker_after(before, event@, 0));
            next
        },
    }
}

} // verus!
