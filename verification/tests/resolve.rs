use spotify_resolver::resolve::{
    look_up, resolve_track, Body, Resolution, ResolveAction, ResolveEvent, Response, Store,
    JSON_RECONSTRUCT_QUERY,
};
use spotify_resolver::schema::sync_db_url;
use spotify_resolver::sql::{Param, Statement};

const RAW: &str = "https://open.spotify.com/track/abc?si=1";

type Event = ResolveEvent<u32, &'static str>;

fn lookup() -> Statement {
    Statement {
        sql: JSON_RECONSTRUCT_QUERY,
        params: vec![Param::Text("abc".to_string()), Param::Text("abc{".to_string())],
    }
}

fn start() -> Resolution<u32> {
    Resolution::new(RAW)
}

#[test]
fn lookup_asks_for_the_range_of_the_id() {
    assert_eq!(look_up("abc"), lookup());
    assert_eq!(look_up("").params, vec![Param::Text("".to_string()), Param::Text("{".to_string())]);
    assert!(JSON_RECONSTRUCT_QUERY.contains("WHERE t.id >= ? AND t.id < ?\n    LIMIT 1"));
}

#[test]
fn legacy_is_asked_first_and_answers() {
    let state = start();
    assert_eq!(state.action(), ResolveAction::LookUp(Store::Legacy, &lookup()));
    let state = resolve_track(state, Event::LookedUp(Ok(Some(7))));
    assert_eq!(state.action(), ResolveAction::Respond);
    assert_eq!(state.into_response(), Some(Response { status: 200, body: Body::Track(7) }));
}

#[test]
fn catalogue_is_asked_second_and_answers() {
    let state = resolve_track(start(), Event::LookedUp(Ok(None)));
    assert_eq!(state.action(), ResolveAction::LookUp(Store::Sync, &lookup()));
    let state = resolve_track(state, Event::LookedUp(Ok(Some(8))));
    assert_eq!(state.into_response(), Some(Response { status: 200, body: Body::Track(8) }));
}

fn missing() -> Resolution<u32> {
    let state = resolve_track(start(), Event::LookedUp(Ok(None)));
    resolve_track(state, Event::LookedUp(Ok(None)))
}

#[test]
fn missing_track_is_queued() {
    let before = chrono::Utc::now().timestamp();
    let state = missing();
    match state.action() {
        ResolveAction::Queue(insert) => {
            assert!(insert.sql.starts_with("INSERT OR IGNORE INTO missing_tracks_queue"));
            assert_eq!(insert.params[0], Param::Text("abc".to_string()));
            match insert.params[1] {
                Param::Int(now) => assert!(before <= now),
                _ => panic!("the time is an integer"),
            }
        }
        _ => panic!("a track that neither database has is queued"),
    }
    let state = resolve_track(state, Event::Queued(Ok(())));
    assert_eq!(state.into_response(), Some(Response { status: 404, body: Body::Status("queued") }));
}

#[test]
fn queue_failure_is_an_error() {
    let state = resolve_track(missing(), Event::Queued(Err("locked")));
    assert_eq!(
        state.into_response(),
        Some(Response { status: 500, body: Body::Status("queue_error") })
    );
}

#[test]
fn stray_event_changes_nothing_in_an_answer() {
    let state = resolve_track(start(), Event::Queued(Ok(())));
    assert_eq!(state, start());
    assert_eq!(start().into_response(), None);
    let answered = resolve_track(start(), Event::LookedUp(Ok(Some(1))));
    let answered = resolve_track(answered, Event::LookedUp(Ok(Some(2))));
    assert_eq!(answered.into_response(), Some(Response { status: 200, body: Body::Track(1) }));
}

#[test]
fn forms_of_one_id_make_one_request() {
    let bare: Resolution<u32> = Resolution::new("abc");
    let uri: Resolution<u32> = Resolution::new("spotify:track:abc");
    assert_eq!(bare, start());
    assert_eq!(uri, start());
}

#[test]
fn catalogue_url_has_a_default() {
    assert_eq!(sync_db_url(None), "sqlite://sync.db");
    assert_eq!(sync_db_url(Some("sqlite://other.db".to_string())), "sqlite://other.db");
    assert_eq!(sync_db_url(Some("".to_string())), "");
}

#[test]
fn failed_lookup_counts_as_a_miss() {
    let state = resolve_track(start(), Event::LookedUp(Err("no such table")));
    assert_eq!(state.action(), ResolveAction::LookUp(Store::Sync, &lookup()));
    let found = resolve_track(state, Event::LookedUp(Ok(Some(5))));
    assert_eq!(found.into_response(), Some(Response { status: 200, body: Body::Track(5) }));
    let state = resolve_track(start(), Event::LookedUp(Err("no such table")));
    let state = resolve_track(state, Event::LookedUp(Err("locked")));
    assert!(matches!(state.action(), ResolveAction::Queue(_)));
}
