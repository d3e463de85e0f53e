//! The answer to a request for a track: from the legacy database, from the
//! catalogue, or not yet.

use vstd::prelude::*;

use crate::ids::clean_spotify_id;
use crate::queue::queue_missing_track;
use crate::sql::{Param, Statement};

verus! {

use crate::clock::clock_gave;
use crate::ids::cleaned;
use crate::queue::enqueue_statement;
use crate::sql::{statement, ParamView, StatementView};

/// Selects a track whose key lies in a range, as one JSON document.
pub const JSON_RECONSTRUCT_QUERY: &'static str = "
    SELECT json_object(
        'id', t.id,
        'name', t.name,
        'popularity', t.popularity,
        'track_number', t.track_number,
        'disc_number', t.disc_number,
        'duration_ms', t.duration_ms,
        'explicit', CASE WHEN t.explicit = 1 THEN json('true') ELSE json('false') END,
        'preview_url', t.preview_url,
        'external_ids', json_object('isrc', t.external_id_isrc),
        'album', (
            SELECT json_object(
                'id', al.id,
                'name', al.name,
                'album_type', al.album_type,
                'release_date', al.release_date,
                'release_date_precision', al.release_date_precision,
                'total_tracks', al.total_tracks,
                'images', (
                    SELECT json_group_array(json_object(
                        'url', img.url, 'width', img.width, 'height', img.height
                    )) FROM album_images img WHERE img.album_rowid = al.rowid
                )
            ) FROM albums al WHERE al.rowid = t.album_rowid
        ),
        'artists', (
            SELECT json_group_array(json_object(
                'id', art.id,
                'name', art.name
            )) FROM artists art
            JOIN track_artists ta ON art.rowid = ta.artist_rowid
            WHERE ta.track_rowid = t.rowid
        )
    ) as spotify_data
    FROM tracks t
    WHERE t.id >= ? AND t.id < ?
    LIMIT 1
";

/// The character behind every letter and digit of ASCII: it closes the range of the
/// keys that begin with an id.
pub const RANGE_END: &'static str = "{";

/// The end of the range of the keys that begin with `id`.
pub open spec fn range_end(id: Seq<char>) -> Seq<char> {
    id + RANGE_END@
}

/// The statement that looks a track up by its bare id.
pub open spec fn lookup_statement(id: Seq<char>) -> StatementView {
    statement(
        JSON_RECONSTRUCT_QUERY,
        seq![ParamView::Text(id), ParamView::Text(range_end(id))],
    )
}

/// The statement that looks a track up by its bare id.
pub fn look_up(id: &str) -> (select: Statement)
    ensures
        select@ == lookup_statement(id@),
{
    let mut end: String = id.to_owned();
    end.append(RANGE_END);
    let select = Statement {
        sql: JSON_RECONSTRUCT_QUERY,
        params: vec![Param::Text(id.to_owned()), Param::Text(end)],
    };
    assert(select@.params =~= lookup_statement(id@).params);
    select
}

/// The two databases that hold tracks.
#[derive(Clone, Copy, Debug, PartialEq, Eq, Structural)]
pub enum Store {
    /// The old data, which is only read.
    Legacy,
    /// The catalogue that the worker fills.
    Sync,
}

/// What an answer carries: the track's document, or a word on what became of the
/// request.
#[derive(Debug, PartialEq, Eq)]
pub enum Body<D> {
    Track(D),
    Status(&'static str),
}

/// An answer: its HTTP status code and its body.
#[derive(Debug, PartialEq, Eq)]
pub struct Response<D> {
    pub status: u16,
    pub body: Body<D>,
}

/// What an answer carries, its text as a sequence.
pub enum BodyView<D> {
    Track(D),
    Status(Seq<char>),
}

/// An answer, its text as a sequence.
pub struct ResponseView<D> {
    pub status: u16,
    pub body: BodyView<D>,
}

impl<D> View for Response<D> {
    type V = ResponseView<D>;

    open spec fn view(&self) -> ResponseView<D> {
        ResponseView {
            status: self.status,
            body: match self.body {
                Body::Track(document) => BodyView::Track(document),
                Body::Status(word) => BodyView::Status(word@),
            },
        }
    }
}

/// The track was found.
pub const OK: u16 = 200;

/// The track was not found.
pub const NOT_FOUND: u16 = 404;

/// The track could not be queued either.
pub const INTERNAL_SERVER_ERROR: u16 = 500;

/// The word for a track that waits in the queue.
pub const QUEUED: &'static str = "queued";

/// The word for a track that could not be queued.
pub const QUEUE_ERROR: &'static str = "queue_error";

/// The answer that carries a track.
pub open spec fn found_response<D>(document: D) -> ResponseView<D> {
    ResponseView { status: OK, body: BodyView::Track(document) }
}

/// The answer that says whether the track was queued.
pub open spec fn missing_response<D>(queued: bool) -> ResponseView<D> {
    if queued {
        ResponseView { status: NOT_FOUND, body: BodyView::Status(QUEUED@) }
    } else {
        ResponseView { status: INTERNAL_SERVER_ERROR, body: BodyView::Status(QUEUE_ERROR@) }
    }
}

/// How far the answer to one request has come. `D` is a track's document.
#[derive(Debug, PartialEq, Eq)]
pub enum Resolution<D> {
    /// The track is to be looked up in one of the databases.
    LookingUp { store: Store, id: String, select: Statement },
    /// The track is to be queued.
    Queueing { insert: Statement },
    /// The answer is ready.
    Answered { response: Response<D> },
}

/// How far the answer has come, its texts as sequences.
pub enum ResolutionView<D> {
    LookingUp { store: Store, id: Seq<char>, select: StatementView },
    Queueing { insert: StatementView },
    Answered { response: ResponseView<D> },
}

impl<D> View for Resolution<D> {
    type V = ResolutionView<D>;

    open spec fn view(&self) -> ResolutionView<D> {
        match self {
            Resolution::LookingUp { store, id, select } => ResolutionView::LookingUp {
                store: *store,
                id: id@,
                select: select@,
            },
            Resolution::Queueing { insert } => ResolutionView::Queueing { insert: insert@ },
            Resolution::Answered { response } => ResolutionView::Answered { response: response@ },
        }
    }
}

/// What the outside answers. `E` is what the databases call an error.
#[derive(Debug, PartialEq, Eq)]
pub enum ResolveEvent<D, E> {
    /// The document that the lookup found, if it found one, or its error.
    LookedUp(Result<Option<D>, E>),
    /// What became of the statement that queues the track.
    Queued(Result<(), E>),
}

/// What is to be done.
#[derive(Debug, PartialEq, Eq)]
pub enum ResolveAction<'a> {
    /// Look the track up in this database.
    LookUp(Store, &'a Statement),
    /// Queue the track.
    Queue(&'a Statement),
    /// Send the answer.
    Respond,
}

/// What is to be done, the texts as sequences.
pub enum ResolveActionView {
    LookUp(Store, StatementView),
    Queue(StatementView),
    Respond,
}

impl<'a> View for ResolveAction<'a> {
    type V = ResolveActionView;

    open spec fn view(&self) -> ResolveActionView {
        match self {
            ResolveAction::LookUp(store, select) => ResolveActionView::LookUp(*store, select@),
            ResolveAction::Queue(insert) => ResolveActionView::Queue(insert@),
            ResolveAction::Respond => ResolveActionView::Respond,
        }
    }
}

/// The state at the start of a request.
pub open spec fn resolution_start<D>(raw_id: Seq<char>) -> ResolutionView<D> {
    ResolutionView::LookingUp {
        store: Store::Legacy,
        id: cleaned(raw_id),
        select: lookup_statement(cleaned(raw_id)),
    }
}

/// What is to be done in this state.
pub open spec fn resolution_action<D>(state: ResolutionView<D>) -> ResolveActionView {
    match state {
        ResolutionView::LookingUp { store, select, .. } => ResolveActionView::LookUp(store, select),
        ResolutionView::Queueing { insert } => ResolveActionView::Queue(insert),
        ResolutionView::Answered { .. } => ResolveActionView::Respond,
    }
}

/// The state behind `event`, which arrived at the time `now`. The first database that
/// has the track answers, and a lookup that fails counts as one that finds nothing; a
/// track that neither database has is queued. An event that does not answer the action
/// changes nothing.
pub open spec fn resolution_after<D, E>(
    state: ResolutionView<D>,
    event: ResolveEvent<D, E>,
    now: i64,
) -> ResolutionView<D> {
    match (state, event) {
        (
            ResolutionView::LookingUp { .. },
            ResolveEvent::LookedUp(Ok(Some(document))),
        ) => ResolutionView::Answered { response: found_response(document) },
        (
            ResolutionView::LookingUp { store: Store::Legacy, id, select },
            ResolveEvent::LookedUp(_),
        ) => ResolutionView::LookingUp { store: Store::Sync, id, select },
        (
            ResolutionView::LookingUp { store: Store::Sync, id, .. },
            ResolveEvent::LookedUp(_),
        ) => ResolutionView::Queueing { insert: enqueue_statement(id, now) },
        (
            ResolutionView::Queueing { .. },
            ResolveEvent::Queued(outcome),
        ) => ResolutionView::Answered { response: missing_response(outcome is Ok) },
        _ => state,
    }
}

fn answer_missing<D>(queued: bool) -> (response: Response<D>)
    ensures
        response@ == missing_response::<D>(queued),
{
    if queued {
        Response { status: NOT_FOUND, body: Body::Status(QUEUED) }
    } else {
        Response { status: INTERNAL_SERVER_ERROR, body: Body::Status(QUEUE_ERROR) }
    }
}

impl<D> Resolution<D> {
    /// The state at the start of a request for `raw_id`.
    pub fn new(raw_id: &str) -> (state: Resolution<D>)
        ensures
            state@ == resolution_start::<D>(raw_id@),
    {
        let id: String = clean_spotify_id(raw_id);
        let select: Statement = look_up(id.as_str());
        Resolution::LookingUp { store: Store::Legacy, id, select }
    }

    /// What is to be done in this state.
    pub fn action(&self) -> (action: ResolveAction<'_>)
        ensures
            action@ == resolution_action(self@),
    {
        match self {
            Resolution::LookingUp { store, id, select } => ResolveAction::LookUp(*store, select),
            Resolution::Queueing { insert } => ResolveAction::Queue(insert),
            Resolution::Answered { response } => ResolveAction::Respond,
        }
    }

    /// The answer, if it is ready.
    pub fn into_response(self) -> (response: Option<Response<D>>)
        ensures
            response is Some <==> self@ is Answered,
            response is Some ==> self@ == (ResolutionView::Answered { response: response->0@ }),
    {
        match self {
            Resolution::Answered { response } => Some(response),
            _ => None,
        }
    }
}

/// The state behind `event`. The clock is read where the track is to be queued.
pub fn resolve_track<D, E>(
    state: Resolution<D>,
    event: ResolveEvent<D, E>,
) -> (next: Resolution<D>)
    ensures
        exists|now: i64|
            {
                &&& 0 <= now
                &&& clock_gave(now) || forall|other: i64| #[trigger]
                    resolution_after(state@, event, other) == next@
                &&& next@ == #[trigger] resolution_after(state@, event, now)
            },
{
    match (state, event) {
        (
            Resolution::LookingUp { store, id, select },
            ResolveEvent::LookedUp(found),
        ) => match found {
            Ok(Some(document)) => {
                let next = Resolution::Answered {
                    response: Response { status: OK, body: Body::Track(document) },
                };
                assert(next@ == resolution_after(state@, event, 0));
                next
            },
            _ => match store {
                Store::Legacy => {
                    let next = Resolution::LookingUp { store: Store::Sync, id, select };
                    assert(next@ == resolution_after(state@, event, 0));
                    next
                },
                Store::Sync => {
                    let insert: Statement = queue_missing_track(id.as_str());
                    let next = Resolution::Queueing { insert };
                    proof {
                        let now = choose|now: i64|
                            0 <= now && clock_gave(now) && insert@
                                == #[trigger] enqueue_statement(id@, now);
                        assert(next@ == resolution_after(state@, event, now));
                    }
                    next
                },
            },
        },
        (Resolution::Queueing { insert }, ResolveEvent::Queued(outcome)) => {
            let next = Resolution::Answered { response: answer_missing(outcome.is_ok()) };
            assert(next@ == resolution_after(state@, event, 0));
            next
        },
        (state, event) => {
            assert(state@ == resolution_after(state@, event, 0));
            state
        },
    }
}

} // verus!
