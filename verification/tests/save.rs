use spotify_resolver::catalog::{Album, Artist, ExternalIds, Image, Track};
use spotify_resolver::ids::SpotifyId;
use spotify_resolver::save::{save_to_sync_db, save_to_sync_db_at, Saving, Stage};
use spotify_resolver::sql::{Param, Reply, Request, Statement};

fn text(value: &str) -> Param {
    Param::Text(value.to_string())
}

type Save = Saving<&'static str>;

fn external(entries: &[(&str, &str)]) -> ExternalIds {
    entries.iter().fold(ExternalIds::new(), |ids, (registry, value)| {
        ids.with(registry.to_string(), value.to_string())
    })
}

fn full_track() -> Track {
    Track {
        id: SpotifyId::parse("trk1"),
        name: "A Song".to_string(),
        preview_url: Some("https://p/x".to_string()),
        track_number: 3,
        disc_number: 1,
        duration_ms: 215000,
        explicit: true,
        external_ids: external(&[("ean", "E1"), ("isrc", "USRC17607839")]),
        album: Album {
            id: SpotifyId::parse("alb1"),
            name: "An Album".to_string(),
            release_date: Some("1999-12-31".to_string()),
            images: vec![
                Image { url: "https://i/1".to_string(), width: Some(640), height: Some(480) },
                Image { url: "https://i/2".to_string(), width: None, height: None },
            ],
        },
        artists: vec![
            Artist { id: SpotifyId::parse("art1"), name: "One".to_string() },
            Artist { id: None, name: "Two".to_string() },
        ],
    }
}

fn bare_track() -> Track {
    Track {
        id: None,
        name: "Local".to_string(),
        preview_url: None,
        track_number: u32::MAX,
        disc_number: -1,
        duration_ms: i64::MIN,
        explicit: false,
        external_ids: external(&[("ISRC", "no"), ("isrc2", "no")]),
        album: Album { id: None, name: "".to_string(), release_date: None, images: vec![] },
        artists: vec![],
    }
}

fn executes(sql: &'static str, params: Vec<Param>) -> Option<Request> {
    Some(Request::Execute(Statement { sql, params }))
}

fn fetches(sql: &'static str, key: &str) -> Option<Request> {
    Some(Request::FetchRowid(Statement { sql, params: vec![text(key)] }))
}

const ALBUM: &str = "INSERT OR IGNORE INTO albums (id, fetched_at, name, album_type, available_markets_rowid, label, popularity, release_date, release_date_precision, total_tracks) \n         VALUES (?, ?, ?, ?, 1, 'Unknown', ?, ?, ?, ?)";
const IMAGE: &str = "INSERT INTO album_images (album_rowid, width, height, url) VALUES (?, ?, ?, ?)";
const TRACK: &str = "INSERT OR IGNORE INTO tracks (id, fetched_at, name, preview_url, album_rowid, track_number, external_id_isrc, popularity, available_markets_rowid, disc_number, duration_ms, explicit)\n         VALUES (?, ?, ?, ?, ?, ?, ?, ?, 1, ?, ?, ?)";
const ARTIST: &str = "INSERT OR IGNORE INTO artists (id, fetched_at, name, followers_total, popularity) VALUES (?, ?, ?, 0, 0)";
const LINK: &str = "INSERT OR IGNORE INTO track_artists (track_rowid, artist_rowid) VALUES (?, ?)";

#[test]
fn full_track_follows_the_script() {
    let now = 1700000000;
    let script: Vec<(Option<Request>, Reply<&'static str>)> = vec![
        (Some(Request::Begin), Reply::Begun),
        (
            executes("INSERT OR IGNORE INTO available_markets (rowid, available_markets) VALUES (1, 'ALL')", vec![]),
            Reply::Executed,
        ),
        (
            executes(
                ALBUM,
                vec![
                    text("spotify:album:alb1"),
                    Param::Int(now),
                    text("An Album"),
                    text("album"),
                    Param::Int(0),
                    text("1999-12-31"),
                    text("day"),
                    Param::Int(0),
                ],
            ),
            Reply::Executed,
        ),
        (fetches("SELECT rowid FROM albums WHERE id = ?", "spotify:album:alb1"), Reply::Rowid(11)),
        (
            executes(IMAGE, vec![Param::Int(11), Param::Int(640), Param::Int(480), text("https://i/1")]),
            Reply::Executed,
        ),
        (
            executes(IMAGE, vec![Param::Int(11), Param::Int(0), Param::Int(0), text("https://i/2")]),
            Reply::Executed,
        ),
        (
            executes(
                TRACK,
                vec![
                    text("spotify:track:trk1"),
                    Param::Int(now),
                    text("A Song"),
                    text("https://p/x"),
                    Param::Int(11),
                    Param::Int(3),
                    text("USRC17607839"),
                    Param::Int(0),
                    Param::Int(1),
                    Param::Int(215000),
                    Param::Bool(true),
                ],
            ),
            Reply::Executed,
        ),
        (fetches("SELECT rowid FROM tracks WHERE id = ?", "spotify:track:trk1"), Reply::Rowid(22)),
        (
            executes(ARTIST, vec![text("spotify:artist:art1"), Param::Int(now), text("One")]),
            Reply::Executed,
        ),
        (fetches("SELECT rowid FROM artists WHERE id = ?", "spotify:artist:art1"), Reply::Rowid(33)),
        (executes(LINK, vec![Param::Int(22), Param::Int(33)]), Reply::Executed),
        (executes(ARTIST, vec![text(""), Param::Int(now), text("Two")]), Reply::Executed),
        (fetches("SELECT rowid FROM artists WHERE id = ?", ""), Reply::Rowid(44)),
        (executes(LINK, vec![Param::Int(22), Param::Int(44)]), Reply::Executed),
        (Some(Request::Commit), Reply::Committed),
    ];
    assert_eq!(script.len(), 7 + 2 + 3 * 2);
    let mut state = Save::new(full_track());
    for (expected, reply) in script {
        assert_eq!(state.request(), expected);
        state = save_to_sync_db_at(state, reply, now);
    }
    assert_eq!(state.stage(), Stage::Saved);
    assert_eq!(state.request(), None);
}

#[test]
fn missing_parts_are_bound_as_null_or_empty() {
    let mut state = Save::new(bare_track());
    for reply in [Reply::Begun, Reply::Executed] {
        state = save_to_sync_db_at(state, reply, 9);
    }
    assert_eq!(
        state.request(),
        executes(
            ALBUM,
            vec![
                text(""),
                Param::Int(9),
                text(""),
                text("album"),
                Param::Int(0),
                Param::Null,
                text("day"),
                Param::Int(0),
            ],
        )
    );
    for reply in [Reply::Executed, Reply::Rowid(1)] {
        state = save_to_sync_db_at(state, reply, 10);
    }
    assert_eq!(
        state.request(),
        executes(
            TRACK,
            vec![
                text(""),
                Param::Int(9),
                text("Local"),
                Param::Null,
                Param::Int(1),
                Param::Int(4294967295),
                Param::Null,
                Param::Int(0),
                Param::Int(-1),
                Param::Int(i64::MIN),
                Param::Bool(false),
            ],
        )
    );
    for reply in [Reply::Executed, Reply::Rowid(2)] {
        state = save_to_sync_db_at(state, reply, 11);
    }
    assert_eq!(state.request(), Some(Request::Commit));
}

fn granted(stage: Stage) -> Reply<&'static str> {
    match stage {
        Stage::Opening => Reply::Begun,
        Stage::AlbumRowid { .. } => Reply::Rowid(1),
        Stage::TrackRowid { .. } => Reply::Rowid(2),
        Stage::ArtistRowid { .. } => Reply::Rowid(3),
        Stage::Committing => Reply::Committed,
        _ => Reply::Executed,
    }
}

#[test]
fn failure_at_any_step_saves_nothing() {
    for failing in 0..15 {
        let mut state = Save::new(full_track());
        for _ in 0..failing {
            let reply = granted(state.stage());
            state = save_to_sync_db(state, reply);
        }
        assert_ne!(state.stage(), Stage::Saved);
        state = save_to_sync_db(state, Reply::Failed("disk full"));
        assert_eq!(state.stage(), Stage::Failed);
        assert_eq!(state.request(), None);
        for reply in [Reply::Committed, Reply::Executed, Reply::Begun, Reply::Failed("later")] {
            state = save_to_sync_db(state, reply);
            assert_eq!(state.stage(), Stage::Failed);
        }
        assert_eq!(state.into_result(), Some(Err("disk full")));
    }
}

#[test]
fn saved_stays_saved() {
    let mut state = Save::new(bare_track());
    for _ in 0..7 {
        let reply = granted(state.stage());
        state = save_to_sync_db(state, reply);
    }
    assert_eq!(state.stage(), Stage::Saved);
    state = save_to_sync_db(state, Reply::Failed("late"));
    assert_eq!(state.stage(), Stage::Saved);
    assert_eq!(state.into_result(), Some(Ok(())));
    assert_eq!(Save::new(bare_track()).into_result(), None);
}

#[test]
fn stray_reply_skips_no_step() {
    let mut state = Save::new(full_track());
    state = save_to_sync_db(state, Reply::Committed);
    assert_eq!(state.stage(), Stage::Opening);
    state = save_to_sync_db_at(state, Reply::Begun, 5);
    assert_eq!(state.stage(), Stage::Markets { now: 5 });
    state = save_to_sync_db(state, Reply::Rowid(8));
    assert_eq!(state.stage(), Stage::Markets { now: 5 });
}

#[test]
fn opening_reads_the_clock() {
    let before = chrono::Utc::now().timestamp();
    let state = save_to_sync_db(Save::new(bare_track()), Reply::Begun);
    let after = chrono::Utc::now().timestamp();
    match state.stage() {
        Stage::Markets { now } => assert!(before <= now && now <= after),
        _ => panic!("an open transaction makes sure of the markets"),
    }
}

#[test]
fn external_id_is_found_by_its_exact_name() {
    assert_eq!(bare_track().external_ids.get("isrc"), None);
    assert_eq!(bare_track().external_ids.get("ISRC"), Some("no".to_string()));
    let ids = external(&[("upc", "1"), ("isrc", "2"), ("ean", "3")]);
    assert_eq!(ids.get("isrc"), Some("2".to_string()));
    assert_eq!(ids.get("ean"), Some("3".to_string()));
    let reversed = external(&[("ean", "3"), ("isrc", "2"), ("upc", "1")]);
    assert_eq!(reversed.get("isrc"), Some("2".to_string()));
    assert_eq!(ExternalIds::new().get("isrc"), None);
}

#[test]
fn registry_keeps_its_latest_id() {
    let ids = external(&[("isrc", "1"), ("ean", "2"), ("isrc", "3")]);
    assert_eq!(ids.get("isrc"), Some("3".to_string()));
    assert_eq!(ids.get("ean"), Some("2".to_string()));
}
