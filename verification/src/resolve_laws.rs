//! What holds of every answer to a request, and which keys a lookup reaches. That SQLite
//! orders texts as [`precedes`] says is part of the model of it that is taken as given.

use vstd::prelude::*;

verus! {

use crate::catalog::TrackView;
use crate::catalog_sql::track_key;
use crate::ids::{
    cleaned,
    is_delimiter,
    is_id_char,
    is_object_id,
    law_bare_is_kept,
    law_cleaned_is_bare,
};
use crate::catalogue_model::{
    asks_for,
    document,
    lookup_answers,
    lookup_text,
    Catalogue,
    Document,
};
use crate::queue::{enqueue_statement, TakingView};
use crate::queue_laws::{
    law_queueing_enters_the_id,
    law_statements_are_distinct,
    law_statements_do_what_they_are_for,
};
use crate::queue_model::{
    has_track,
    new_entry,
    op_effect,
    op_statement,
    queue_effect,
    Entry,
    EntryStatus,
    QueueOp,
};
use crate::resolve::{
    found_response,
    look_up,
    lookup_statement,
    missing_response,
    range_end,
    resolution_action,
    resolution_after,
    resolution_start,
    Body,
    BodyView,
    Resolution,
    ResolutionView,
    ResolveAction,
    ResolveActionView,
    ResolveEvent,
    Response,
    ResponseView,
    Store,
};
use crate::sql::{QueuedView, Statement};
use crate::tables::is_next_rowid;
use crate::worker::{phase_after_take, PhaseView};

/// What a lookup finds; one that fails finds nothing.
pub open spec fn found<D, E>(outcome: Result<Option<D>, E>) -> Option<D> {
    match outcome {
        Ok(found) => found,
        Err(_) => None,
    }
}

/// The answer to a request, from the outcomes of the two lookups and of queueing the
/// track: the legacy database comes first, the catalogue second; a track that neither
/// has is reported as queued, or as an error where that fails.
pub open spec fn answer<D, E>(
    legacy: Result<Option<D>, E>,
    sync: Result<Option<D>, E>,
    queued: Result<(), E>,
) -> ResponseView<D> {
    match (found(legacy), found(sync)) {
        (Some(document), _) => found_response(document),
        (None, Some(document)) => found_response(document),
        (None, None) => missing_response(queued is Ok),
    }
}

/// The state when the answer is ready: the legacy database is asked, the catalogue
/// only where that has nothing, and the queue only where neither has.
pub open spec fn resolved<D, E>(
    raw_id: Seq<char>,
    legacy: Result<Option<D>, E>,
    sync: Result<Option<D>, E>,
    queued: Result<(), E>,
    now: i64,
) -> ResolutionView<D> {
    let asked = resolution_after(
        resolution_start::<D>(raw_id),
        ResolveEvent::LookedUp(legacy),
        now,
    );
    if found(legacy) is Some {
        asked
    } else {
        let asked_twice = resolution_after(asked, ResolveEvent::LookedUp(sync), now);
        if found(sync) is Some {
            asked_twice
        } else {
            resolution_after(asked_twice, ResolveEvent::Queued::<D, E>(queued), now)
        }
    }
}

/// The state of a request that neither lookup has found a track for.
pub open spec fn missed_twice<D, E>(
    raw_id: Seq<char>,
    legacy: Result<Option<D>, E>,
    sync: Result<Option<D>, E>,
    now: i64,
) -> ResolutionView<D> {
    let second = resolution_after(
        resolution_start::<D>(raw_id),
        ResolveEvent::LookedUp(legacy),
        now,
    );
    resolution_after(second, ResolveEvent::LookedUp(sync), now)
}

/// Every request is answered, as `answer` says. Both lookups ask for the same range of
/// keys, that of the bare id; the id queued is that id, and it is queued only where
/// both lookups found nothing, be it that they failed.
pub proof fn law_every_request_is_answered<D, E>(
    raw_id: Seq<char>,
    legacy: Result<Option<D>, E>,
    sync: Result<Option<D>, E>,
    queued: Result<(), E>,
    now: i64,
)
    ensures
        resolved(raw_id, legacy, sync, queued, now) == (ResolutionView::Answered {
            response: answer(legacy, sync, queued),
        }),
        ({
            let start = resolution_start::<D>(raw_id);
            let second = resolution_after(start, ResolveEvent::LookedUp(legacy), now);
            let third = resolution_after(second, ResolveEvent::LookedUp(sync), now);
            let id = cleaned(raw_id);
            &&& resolution_action(start) == ResolveActionView::LookUp(
                Store::Legacy,
                lookup_statement(id),
            )
            &&& found(legacy) is None ==> resolution_action(second) == ResolveActionView::LookUp(
                Store::Sync,
                lookup_statement(id),
            )
            &&& resolution_action(third) is Queue <==> found(legacy) is None && found(sync) is None
            &&& resolution_action(third) is Queue ==> resolution_action(third)
                == ResolveActionView::Queue(enqueue_statement(id, now))
        }),
{
}

/// A track that neither database has is in the queue once the statement that queues it
/// has gone through, and no entry that was there has changed.
pub proof fn law_missing_track_is_queued<D, E>(
    raw_id: Seq<char>,
    legacy: Result<Option<D>, E>,
    sync: Result<Option<D>, E>,
    now: i64,
    op: QueueOp,
    before: Map<i64, Entry>,
    after: Map<i64, Entry>,
)
    requires
        resolution_action(missed_twice(raw_id, legacy, sync, now)) == ResolveActionView::Queue(
            op_statement(op),
        ),
        op_effect(op, before, after),
    ensures
        has_track(after, cleaned(raw_id)),
        before.submap_of(after),
{
    let track_id = cleaned(raw_id);
    law_statements_are_distinct(op, QueueOp::Enqueue { track_id, now });
    law_statements_do_what_they_are_for(op, before, after);
    if !has_track(before, track_id) {
        let rowid = choose|rowid: i64|
            is_next_rowid(before, rowid) && after == #[trigger] before.insert(
                rowid,
                new_entry(track_id, now),
            );
        assert(after.contains_key(rowid) && after[rowid].track_id == track_id);
    }
}

/// An answer that is ready does not change any more.
pub proof fn law_answer_is_final<D, E>(
    response: ResponseView<D>,
    event: ResolveEvent<D, E>,
    now: i64,
)
    ensures
        resolution_after(ResolutionView::Answered { response }, event, now)
            == (ResolutionView::Answered { response }),
{
}

/// Requests that name the same id in different forms are one request.
pub proof fn law_forms_of_one_id_agree<D>(raw_id: Seq<char>)
    ensures
        resolution_start::<D>(raw_id) == resolution_start::<D>(cleaned(raw_id)),
{
    law_cleaned_is_bare(raw_id);
    law_bare_is_kept(cleaned(raw_id));
}

/// The order of texts in the databases: by character code, a prefix first.
pub open spec fn precedes(a: Seq<char>, b: Seq<char>) -> bool
    decreases a.len(),
{
    if b.len() == 0 {
        false
    } else if a.len() == 0 {
        true
    } else if a[0] != b[0] {
        a[0] < b[0]
    } else {
        precedes(a.drop_first(), b.drop_first())
    }
}

/// A lookup of `id` reaches `key`: the key is at or behind the id, and in front of the
/// end of its range.
pub open spec fn reaches(id: Seq<char>, key: Seq<char>) -> bool {
    !precedes(key, id) && precedes(key, range_end(id))
}

/// A lookup reaches the id itself and the keys that begin with it and go on with a
/// character in front of the brace, and no others.
pub proof fn law_lookup_reaches_prefixed_keys(id: Seq<char>, key: Seq<char>)
    ensures
        reaches(id, key) <==> id.is_prefix_of(key) && (key.len() == id.len() || key[id.len() as int]
            < '{'),
    decreases id.len(),
{
    reveal_strlit("{");
    reveal_with_fuel(precedes, 2);
    let end = range_end(id);
    if id.len() == 0 {
        assert(end =~= seq!['{']);
        assert(id.is_prefix_of(key));
    } else if key.len() == 0 {
        assert(!id.is_prefix_of(key));
    } else if key[0] != id[0] {
        assert(end[0] == id[0]);
        assert(!id.is_prefix_of(key)) by {
            if id.is_prefix_of(key) {
                assert(id =~= key.subrange(0, id.len() as int));
                assert(id[0] == key.subrange(0, id.len() as int)[0]);
            }
        }
    } else {
        let (rest, key_rest) = (id.drop_first(), key.drop_first());
        law_lookup_reaches_prefixed_keys(rest, key_rest);
        assert(end.drop_first() =~= range_end(rest));
        assert(id.is_prefix_of(key) <==> rest.is_prefix_of(key_rest)) by {
            if id.is_prefix_of(key) {
                assert(rest =~= key_rest.subrange(0, rest.len() as int)) by {
                    assert forall|i: int| 0 <= i < rest.len() implies rest[i] == key_rest[i] by {
                        assert(id[i + 1] == key.subrange(0, id.len() as int)[i + 1]);
                    }
                }
            }
            if rest.is_prefix_of(key_rest) {
                assert(id =~= key.subrange(0, id.len() as int)) by {
                    assert forall|i: int| 0 <= i < id.len() implies id[i] == key[i] by {
                        if i > 0 {
                            assert(rest[i - 1] == key_rest.subrange(0, rest.len() as int)[i - 1]);
                        }
                    }
                }
            }
        }
    }
}

/// Among keys that are object ids, a lookup reaches those that begin with the id, and
/// only those.
pub proof fn law_lookup_is_a_prefix_search(id: Seq<char>, key: Seq<char>)
    requires
        is_object_id(key),
    ensures
        reaches(id, key) <==> id.is_prefix_of(key),
{
    law_lookup_reaches_prefixed_keys(id, key);
    if id.is_prefix_of(key) && id.len() < key.len() {
        assert(is_id_char(key[id.len() as int]));
    }
}

/// The word that every object's URI begins with.
pub const URI_SCHEME: &'static str = "spotify";

/// The catalogue keeps a track under its URI, not under its bare id. A request reaches
/// the track exactly where the id that it names is a first part of the word that
/// every URI begins with, whichever track that is.
pub proof fn law_reach_of_stored_tracks(raw_id: Seq<char>, track: TrackView)
    requires
        track.id is Some,
    ensures
        reaches(cleaned(raw_id), track_key(track)) <==> cleaned(raw_id).is_prefix_of(URI_SCHEME@),
{
    reveal_strlit("spotify");
    reveal_strlit("spotify:track:");
    let id = cleaned(raw_id);
    let key = track_key(track);
    let scheme = URI_SCHEME@;
    law_cleaned_is_bare(raw_id);
    law_lookup_reaches_prefixed_keys(id, key);
    assert(key[7] == ':');
    assert(scheme =~= key.subrange(0, 7));
    if id.is_prefix_of(key) {
        assert(id =~= key.subrange(0, id.len() as int));
        assert(id.len() <= 7) by {
            if id.len() > 7 {
                assert(!is_delimiter(id[7]));
            }
        }
        assert(id =~= scheme.subrange(0, id.len() as int));
    }
    if id.is_prefix_of(scheme) {
        assert(id =~= scheme.subrange(0, id.len() as int));
        assert(id =~= key.subrange(0, id.len() as int));
    }
}

/// The statement that `look_up` gives for an id is the one that selects a document, and it
/// asks for a key exactly where the key is the id, or begins with it and goes on with a
/// character in front of the brace.
pub proof fn law_lookup_asks_for_its_id(id: &str, select: Statement, key: Seq<char>)
    requires
        call_ensures(look_up, (id,), select),
    ensures
        select@.sql == lookup_text(),
        select@.params.len() == 2,
        select@.params[0] is Text,
        select@.params[1] is Text,
        asks_for(select@, id@),
        asks_for(select@, key) <==> id@.is_prefix_of(key) && (key.len() == id@.len() || key[
            id@.len() as int
        ] < '{'),
{
    law_bound_range_is_that_of_the_id(id@, id@);
    law_bound_range_is_that_of_the_id(id@, key);
}

/// The two values that a lookup binds enclose the id itself and the keys that begin with
/// it, and no others: a key lies between them exactly where the lookup reaches it.
pub proof fn law_bound_range_is_that_of_the_id(id: Seq<char>, key: Seq<char>)
    ensures
        lookup_statement(id).sql == lookup_text(),
        lookup_statement(id).params.len() == 2,
        lookup_statement(id).params[0] is Text,
        lookup_statement(id).params[1] is Text,
        asks_for(lookup_statement(id), key) <==> reaches(id, key),
        asks_for(lookup_statement(id), key) <==> id.is_prefix_of(key) && (key.len() == id.len()
            || key[id.len() as int] < '{'),
        asks_for(lookup_statement(id), id),
{
    law_lookup_reaches_prefixed_keys(id, key);
    law_lookup_reaches_prefixed_keys(id, id);
    assert(id =~= id.subrange(0, id.len() as int));
}

/// What a state's lookup brings from the two databases. A state that looks nothing up is
/// answered with anything.
pub open spec fn store_answers(
    action: ResolveActionView,
    legacy: Catalogue,
    sync: Catalogue,
    answer: Option<Document>,
) -> bool {
    match action {
        ResolveActionView::LookUp(Store::Legacy, select) => lookup_answers(legacy, select, answer),
        ResolveActionView::LookUp(Store::Sync, select) => lookup_answers(sync, select, answer),
        _ => true,
    }
}

/// The row holds a track that the id names: its key is the id, or begins with it and goes
/// on with a character in front of the brace.
pub open spec fn names_row(id: Seq<char>, c: Catalogue, rowid: i64) -> bool {
    &&& c.tracks.contains_key(rowid)
    &&& id.is_prefix_of(c.tracks[rowid].key)
    &&& c.tracks[rowid].key.len() == id.len() || c.tracks[rowid].key[id.len() as int] < '{'
}

/// A request from its raw id to its answer, with what is in the two databases. A track
/// that the legacy database has under the id is answered with its document and the code
/// for success; else one that the catalogue has; else the statement to be executed brings
/// the bare id into the queue, and the answer says so with the code for a thing not found,
/// or says that it failed with the code for an error.
pub proof fn law_request_is_answered_from_the_stores<E>(
    raw_id: Seq<char>,
    legacy: Catalogue,
    sync: Catalogue,
    first: Option<Document>,
    second: Option<Document>,
    queued: Result<(), E>,
    now: i64,
    before: Map<i64, Entry>,
    after: Map<i64, Entry>,
)
    requires
        ({
            let start = resolution_start::<Document>(raw_id);
            let looked_up = ResolveEvent::LookedUp::<Document, E>(Ok(first));
            let next = resolution_after(start, looked_up, now);
            &&& store_answers(resolution_action(start), legacy, sync, first)
            &&& store_answers(resolution_action(next), legacy, sync, second)
        }),
    ensures
        ({
            let id = cleaned(raw_id);
            let start = resolution_start::<Document>(raw_id);
            let looked_up = ResolveEvent::LookedUp::<Document, E>(Ok(first));
            let next = resolution_after(start, looked_up, now);
            let looked_up_again = ResolveEvent::LookedUp::<Document, E>(Ok(second));
            let third = resolution_after(next, looked_up_again, now);
            let last = resolution_after(third, ResolveEvent::Queued::<Document, E>(queued), now);
            if exists|rowid: i64| #[trigger] names_row(id, legacy, rowid) {
                exists|rowid: i64| #[trigger]
                    names_row(id, legacy, rowid) && next == (ResolutionView::Answered {
                        response: ResponseView {
                            status: 200,
                            body: BodyView::Track(document(legacy, rowid)),
                        },
                    })
            } else if exists|rowid: i64| #[trigger] names_row(id, sync, rowid) {
                exists|rowid: i64| #[trigger]
                    names_row(id, sync, rowid) && third == (ResolutionView::Answered {
                        response: ResponseView {
                            status: 200,
                            body: BodyView::Track(document(sync, rowid)),
                        },
                    })
            } else {
                &&& resolution_action(third) is Queue
                &&& queue_effect(resolution_action(third)->Queue_0, before, after) ==> {
                    &&& has_track(after, id)
                    &&& before.submap_of(after)
                    &&& forall|rowid: i64| #[trigger]
                        after.contains_key(rowid) && !before.contains_key(rowid) ==> after[rowid]
                            == (Entry {
                            track_id: id,
                            enqueued_at: now,
                            status: EntryStatus::Pending,
                            attempts: 0,
                            last_attempt_at: None,
                        })
                }
                &&& last == (ResolutionView::Answered {
                    response: if queued is Ok {
                        ResponseView::<Document> { status: 404, body: BodyView::Status("queued"@) }
                    } else {
                        ResponseView::<Document> {
                            status: 500,
                            body: BodyView::Status("queue_error"@),
                        }
                    },
                })
            }
        }),
{
    let id = cleaned(raw_id);
    let select = lookup_statement(id);
    assert forall|key: Seq<char>| #[trigger] asks_for(select, key) <==> id.is_prefix_of(key) && (
    key.len() == id.len() || key[id.len() as int] < '{') by {
        law_bound_range_is_that_of_the_id(id, key);
    }
    law_bound_range_is_that_of_the_id(id, id);
    assert forall|c: Catalogue, rowid: i64| #[trigger] names_row(id, c, rowid) <==> (
    c.tracks.contains_key(rowid) && asks_for(select, c.tracks[rowid].key)) by {}
    assert(lookup_answers(legacy, select, first));
    if first is Some {
        let rowid = choose|rowid: i64| #[trigger]
            legacy.tracks.contains_key(rowid) && asks_for(select, legacy.tracks[rowid].key)
                && first->0 == document(legacy, rowid);
        assert(names_row(id, legacy, rowid));
    } else {
        assert forall|rowid: i64| !#[trigger] names_row(id, legacy, rowid) by {}
        assert(lookup_answers(sync, select, second));
        if second is Some {
            let rowid = choose|rowid: i64| #[trigger]
                sync.tracks.contains_key(rowid) && asks_for(select, sync.tracks[rowid].key)
                    && second->0 == document(sync, rowid);
            assert(names_row(id, sync, rowid));
        } else {
            assert forall|rowid: i64| !#[trigger] names_row(id, sync, rowid) by {}
            if queue_effect(enqueue_statement(id, now), before, after) {
                law_queueing_enters_the_id(id, now, before, after);
            }
        }
    }
}

/// A lookup that fails changes no more than one that finds nothing: the state behind it is
/// the same.
pub proof fn law_failed_lookup_is_a_miss<D, E>(state: ResolutionView<D>, error: E, now: i64)
    ensures
        resolution_after(state, ResolveEvent::LookedUp::<D, E>(Err(error)), now)
            == resolution_after(state, ResolveEvent::LookedUp::<D, E>(Ok(None)), now),
{
}

/// A track that waits for the worker because a request named it is one that the worker
/// can fetch, wherever the id is a track id: the entry that queueing adds has that very
/// id, and it is a track id.
pub proof fn law_queued_track_can_be_fetched(
    raw_id: Seq<char>,
    now: i64,
    before: Map<i64, Entry>,
    after: Map<i64, Entry>,
    rowid: i64,
)
    requires
        is_object_id(cleaned(raw_id)),
        queue_effect(enqueue_statement(cleaned(raw_id), now), before, after),
        after.contains_key(rowid),
        !before.contains_key(rowid),
    ensures
        after[rowid].track_id == cleaned(raw_id),
        is_object_id(after[rowid].track_id),
        phase_after_take(
            TakingView::<()>::Taken {
                taken: Some(QueuedView { rowid, track_id: after[rowid].track_id }),
            },
        ) == (PhaseView::<()>::Fetching { rowid, id: cleaned(raw_id) }),
{
    law_queueing_enters_the_id(cleaned(raw_id), now, before, after);
}

/// An answer is seen with its own code, and with its own document or word.
pub proof fn law_response_is_seen_as_it_is<D>(response: Response<D>)
    ensures
        response@.status == response.status,
        match response.body {
            Body::Track(document) => response@.body == BodyView::Track(document),
            Body::Status(word) => response@.body == BodyView::<D>::Status(word@),
        },
{
}

/// What is to be done is seen as it is, with its own database and its own statement.
pub proof fn law_resolve_action_is_seen_as_it_is(action: ResolveAction<'_>)
    ensures
        match action {
            ResolveAction::LookUp(store, select) => action@ == ResolveActionView::LookUp(
                store,
                select@,
            ),
            ResolveAction::Queue(insert) => action@ == ResolveActionView::Queue(insert@),
            ResolveAction::Respond => action@ == ResolveActionView::Respond,
        },
{
}

/// Only an answer that is ready is sent, and it is sent as it stands.
pub proof fn law_answer_is_handed_out_as_it_is<D>(
    state: Resolution<D>,
    response: Option<Response<D>>,
)
    requires
        call_ensures(Resolution::<D>::into_response, (state,), response),
    ensures
        match state {
            Resolution::Answered { response: ready } => response is Some && response->0@ == ready@,
            _ => response is None,
        },
        resolution_action(state@) == ResolveActionView::Respond <==> response is Some,
{
}

/// Only what came of the action changes anything: the outcome of a lookup where one is
/// asked for, and what became of queueing the track where that is.
pub proof fn law_only_an_answer_takes_the_request_on<D, E>(
    state: ResolutionView<D>,
    event: ResolveEvent<D, E>,
    now: i64,
)
    ensures
        resolution_after(state, event, now) != state ==> match resolution_action(state) {
            ResolveActionView::LookUp(..) => event is LookedUp,
            ResolveActionView::Queue(_) => event is Queued,
            ResolveActionView::Respond => false,
        },
        resolution_action(state) is LookUp && event is LookedUp ==> resolution_after(
            state,
            event,
            now,
        ) != state,
        resolution_action(state) is Queue && event is Queued ==> resolution_after(
            state,
            event,
            now,
        ) is Answered,
{
}

} // verus!
