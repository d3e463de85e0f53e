use spotify_resolver::catalog::{Album, Artist, ExternalIds, Image, Track};
use spotify_resolver::ids::SpotifyId;
use spotify_resolver::queue::{
    queue_missing_track_at, remove_queued_track, reset_queued_track, take_next_queued_track_at,
    Taking,
};
use spotify_resolver::resolve::look_up;
use spotify_resolver::save::{save_to_sync_db_at, Saving, Stage};
use spotify_resolver::schema::SYNC_DB_SCHEMA;
use spotify_resolver::sql::{Param, QueuedTrack, Reply, Request, Statement};
use sqlx::query::Query;
use sqlx::sqlite::{Sqlite, SqliteArguments, SqlitePool, SqlitePoolOptions};
use sqlx::{Row, Transaction};
use std::future::Future;

fn block_on<F: Future<Output = ()>>(future: F) {
    tokio::runtime::Runtime::new().unwrap().block_on(future);
}

async fn database() -> SqlitePool {
    let pool = SqlitePoolOptions::new().max_connections(1).connect("sqlite::memory:").await.unwrap();
    sqlx::query(SYNC_DB_SCHEMA).execute(&pool).await.unwrap();
    pool
}

fn bound(statement: &Statement) -> Query<'_, Sqlite, SqliteArguments<'_>> {
    let mut query = sqlx::query(statement.sql);
    for param in &statement.params {
        query = match param {
            Param::Int(value) => query.bind(*value),
            Param::Text(value) => query.bind(value.as_str()),
            Param::Bool(value) => query.bind(*value),
            Param::Null => query.bind(None::<String>),
        };
    }
    query
}

async fn run(pool: &SqlitePool, statement: Statement) {
    bound(&statement).execute(pool).await.unwrap();
}

async fn step(
    pool: &SqlitePool,
    open: &mut Option<Transaction<'static, Sqlite>>,
    request: Request,
) -> Result<Reply<sqlx::Error>, sqlx::Error> {
    match request {
        Request::Begin => {
            *open = Some(pool.begin().await?);
            Ok(Reply::Begun)
        }
        Request::Execute(statement) => {
            bound(&statement).execute(&mut **open.as_mut().unwrap()).await?;
            Ok(Reply::Executed)
        }
        Request::FetchRowid(statement) => {
            let row = bound(&statement).fetch_one(&mut **open.as_mut().unwrap()).await?;
            Ok(Reply::Rowid(row.try_get(0)?))
        }
        Request::FetchQueued(statement) => {
            let row = bound(&statement).fetch_optional(&mut **open.as_mut().unwrap()).await?;
            Ok(Reply::Queued(row.map(|row| QueuedTrack {
                rowid: row.get("rowid"),
                track_id: row.get("track_id"),
            })))
        }
        Request::Commit => {
            open.take().unwrap().commit().await?;
            Ok(Reply::Committed)
        }
    }
}

async fn take(pool: &SqlitePool, now: i64) -> Option<QueuedTrack> {
    let mut open = None;
    let mut state = Taking::Opening;
    while let Some(request) = state.request() {
        let reply = step(pool, &mut open, request).await.unwrap();
        state = take_next_queued_track_at(state, reply, now);
    }
    state.into_result().unwrap().unwrap()
}

async fn save(pool: &SqlitePool, track: Track, now: i64) -> Stage {
    let mut open = None;
    let mut state = Saving::new(track);
    while let Some(request) = state.request() {
        let reply = step(pool, &mut open, request).await.unwrap_or_else(Reply::Failed);
        state = save_to_sync_db_at(state, reply, now);
    }
    state.stage()
}

type Entry = (i64, String, i64, String, i64, Option<i64>);

async fn entries(pool: &SqlitePool) -> Vec<Entry> {
    sqlx::query("SELECT rowid, track_id, enqueued_at, status, attempts, last_attempt_at FROM missing_tracks_queue ORDER BY rowid")
        .fetch_all(pool)
        .await
        .unwrap()
        .iter()
        .map(|row| (row.get(0), row.get(1), row.get(2), row.get(3), row.get(4), row.get(5)))
        .collect()
}

fn entry(rowid: i64, track_id: &str, at: i64, status: &str, attempts: i64, last: Option<i64>) -> Entry {
    (rowid, track_id.to_string(), at, status.to_string(), attempts, last)
}

async fn find(pool: &SqlitePool, id: &str) -> Option<serde_json::Value> {
    let row = bound(&look_up(id)).fetch_optional(pool).await.unwrap()?;
    let text: String = row.get(0);
    Some(serde_json::from_str(&text).unwrap())
}

async fn count(pool: &SqlitePool, table: &str) -> i64 {
    sqlx::query(&format!("SELECT count(*) FROM {}", table)).fetch_one(pool).await.unwrap().get(0)
}

fn artist(id: &str, name: &str) -> Artist {
    Artist { id: SpotifyId::parse(id), name: name.to_string() }
}

fn song(id: &str) -> Track {
    Track {
        id: SpotifyId::parse(id),
        name: "A Song".to_string(),
        preview_url: None,
        track_number: 3,
        disc_number: 1,
        duration_ms: 215000,
        explicit: true,
        external_ids: ExternalIds::new().with("isrc".to_string(), "USRC17607839".to_string()),
        album: Album {
            id: SpotifyId::parse("alb1"),
            name: "An Album".to_string(),
            release_date: Some("1999-12-31".to_string()),
            images: vec![
                Image { url: "https://i/1".to_string(), width: Some(640), height: Some(480) },
                Image { url: "https://i/2".to_string(), width: None, height: None },
            ],
        },
        artists: vec![artist("art1", "One"), artist("art2", "Two")],
    }
}

#[test]
fn track_is_queued_once() {
    block_on(async {
        let pool = database().await;
        run(&pool, queue_missing_track_at("a", 10)).await;
        run(&pool, queue_missing_track_at("b", 11)).await;
        run(&pool, queue_missing_track_at("a", 12)).await;
        assert_eq!(
            entries(&pool).await,
            vec![entry(1, "a", 10, "pending", 0, None), entry(2, "b", 11, "pending", 0, None)]
        );
    });
}

#[test]
fn entries_are_taken_in_order_and_not_twice() {
    block_on(async {
        let pool = database().await;
        for (id, now) in [("z", 1), ("m", 2), ("a", 3)] {
            run(&pool, queue_missing_track_at(id, now)).await;
        }
        let ids: Vec<String> = vec![
            take(&pool, 20).await.unwrap().track_id,
            take(&pool, 21).await.unwrap().track_id,
            take(&pool, 22).await.unwrap().track_id,
        ];
        assert_eq!(ids, vec!["z", "m", "a"]);
        assert_eq!(take(&pool, 23).await, None);
        assert_eq!(entries(&pool).await[1], entry(2, "m", 2, "processing", 1, Some(21)));
    });
}

#[test]
fn removed_entry_is_gone_and_can_be_queued_anew() {
    block_on(async {
        let pool = database().await;
        run(&pool, queue_missing_track_at("a", 1)).await;
        run(&pool, queue_missing_track_at("b", 2)).await;
        let taken = take(&pool, 3).await.unwrap();
        run(&pool, remove_queued_track(taken.rowid)).await;
        assert_eq!(entries(&pool).await, vec![entry(2, "b", 2, "pending", 0, None)]);
        run(&pool, queue_missing_track_at("a", 4)).await;
        assert_eq!(entries(&pool).await[1], entry(3, "a", 4, "pending", 0, None));
    });
}

#[test]
fn reset_entry_is_next_again_with_one_attempt_more() {
    block_on(async {
        let pool = database().await;
        run(&pool, queue_missing_track_at("a", 1)).await;
        run(&pool, queue_missing_track_at("b", 2)).await;
        let taken = take(&pool, 3).await.unwrap();
        run(&pool, reset_queued_track(taken.rowid)).await;
        assert_eq!(
            entries(&pool).await,
            vec![entry(1, "a", 1, "pending", 1, Some(3)), entry(2, "b", 2, "pending", 0, None)]
        );
        assert_eq!(take(&pool, 4).await.unwrap().track_id, "a");
        assert_eq!(entries(&pool).await[0], entry(1, "a", 1, "processing", 2, Some(4)));
    });
}

#[test]
fn new_track_reads_back() {
    block_on(async {
        let pool = database().await;
        assert_eq!(save(&pool, song("trk1"), 99).await, Stage::Saved);
        let document = find(&pool, "spotify").await.unwrap();
        assert_eq!(document["id"], "spotify:track:trk1");
        assert_eq!(document["name"], "A Song");
        assert_eq!(document["popularity"], 0);
        assert_eq!(document["track_number"], 3);
        assert_eq!(document["disc_number"], 1);
        assert_eq!(document["duration_ms"], 215000);
        assert_eq!(document["explicit"], true);
        assert!(document["preview_url"].is_null());
        assert_eq!(document["external_ids"]["isrc"], "USRC17607839");
        let album = &document["album"];
        assert_eq!(album["id"], "spotify:album:alb1");
        assert_eq!(album["name"], "An Album");
        assert_eq!(album["album_type"], "album");
        assert_eq!(album["release_date"], "1999-12-31");
        assert_eq!(album["release_date_precision"], "day");
        assert_eq!(album["total_tracks"], 0);
        let mut urls: Vec<String> = album["images"]
            .as_array()
            .unwrap()
            .iter()
            .map(|image| format!("{} {}x{}", image["url"].as_str().unwrap(), image["width"], image["height"]))
            .collect();
        urls.sort();
        assert_eq!(urls, vec!["https://i/1 640x480", "https://i/2 0x0"]);
        let mut artists: Vec<String> = document["artists"]
            .as_array()
            .unwrap()
            .iter()
            .map(|artist| format!("{} {}", artist["id"].as_str().unwrap(), artist["name"].as_str().unwrap()))
            .collect();
        artists.sort();
        assert_eq!(artists, vec!["spotify:artist:art1 One", "spotify:artist:art2 Two"]);
    });
}

#[test]
fn stored_track_is_reached_through_its_uri_only() {
    block_on(async {
        let pool = database().await;
        assert_eq!(save(&pool, song("trk1"), 99).await, Stage::Saved);
        assert!(find(&pool, "trk1").await.is_none());
        assert!(find(&pool, "spot").await.is_some());
        assert!(find(&pool, "").await.is_some());
        assert!(find(&pool, "spotifyx").await.is_none());
    });
}

#[test]
fn lookup_reaches_the_ids_that_begin_with_it() {
    block_on(async {
        let pool = database().await;
        sqlx::query("INSERT INTO available_markets VALUES (1, 'ALL')").execute(&pool).await.unwrap();
        sqlx::query("INSERT INTO tracks (id, fetched_at, name, album_rowid, track_number, popularity, available_markets_rowid, disc_number, duration_ms, explicit) VALUES ('abcZ9', 0, 'n', 1, 1, 0, 1, 1, 1, 0)")
            .execute(&pool)
            .await
            .unwrap();
        for id in ["", "a", "abc", "abcZ9"] {
            let document = find(&pool, id).await.unwrap();
            assert_eq!(document["id"], "abcZ9");
            assert_eq!(document["explicit"], false);
            assert!(document["album"].is_null());
        }
        for id in ["abcZ99", "abcz", "b", "ab{", "ABC"] {
            assert!(find(&pool, id).await.is_none());
        }
    });
}

async fn rows(pool: &SqlitePool, query: &str) -> Vec<(i64, String)> {
    sqlx::query(query)
        .fetch_all(pool)
        .await
        .unwrap()
        .iter()
        .map(|row| (row.get(0), row.get(1)))
        .collect()
}

const MARKETS: &str = "SELECT rowid, available_markets FROM available_markets ORDER BY rowid";

#[test]
fn saving_again_adds_rows_and_takes_none_away() {
    block_on(async {
        let pool = database().await;
        assert_eq!(save(&pool, song("trk1"), 1).await, Stage::Saved);
        assert_eq!(save(&pool, song("trk1"), 2).await, Stage::Saved);
        assert_eq!(rows(&pool, MARKETS).await, vec![(1, "ALL".to_string())]);
        assert_eq!(
            rows(&pool, "SELECT rowid, id FROM albums ORDER BY rowid").await,
            vec![(1, "spotify:album:alb1".to_string()), (2, "spotify:album:alb1".to_string())]
        );
        assert_eq!(
            rows(&pool, "SELECT rowid, id FROM tracks ORDER BY rowid").await,
            vec![(1, "spotify:track:trk1".to_string()), (2, "spotify:track:trk1".to_string())]
        );
        assert_eq!(count(&pool, "artists").await, 4);
        assert_eq!(count(&pool, "album_images").await, 4);
        assert_eq!(count(&pool, "track_artists").await, 4);
    });
}

#[test]
fn save_makes_sure_of_the_markets() {
    block_on(async {
        let pool = database().await;
        assert_eq!(save(&pool, song("trk1"), 1).await, Stage::Saved);
        assert_eq!(rows(&pool, MARKETS).await, vec![(1, "ALL".to_string())]);
        assert_eq!(
            rows(&pool, "SELECT available_markets_rowid, label FROM albums").await,
            vec![(1, "Unknown".to_string())]
        );
        assert_eq!(
            rows(&pool, "SELECT available_markets_rowid, id FROM tracks").await,
            vec![(1, "spotify:track:trk1".to_string())]
        );
        assert_eq!(
            rows(&pool, "SELECT followers_total + popularity, name FROM artists ORDER BY rowid").await,
            vec![(0, "One".to_string()), (0, "Two".to_string())]
        );
    });
}

#[test]
fn markets_that_are_there_are_kept() {
    block_on(async {
        let pool = database().await;
        sqlx::query("INSERT INTO available_markets VALUES (1, 'DE,FR'), (7, 'SE')")
            .execute(&pool)
            .await
            .unwrap();
        assert_eq!(save(&pool, song("trk1"), 1).await, Stage::Saved);
        assert_eq!(
            rows(&pool, MARKETS).await,
            vec![(1, "DE,FR".to_string()), (7, "SE".to_string())]
        );
    });
}

#[test]
fn new_row_comes_behind_the_largest() {
    block_on(async {
        let pool = database().await;
        sqlx::query("INSERT INTO missing_tracks_queue (rowid, track_id, enqueued_at, status, attempts) VALUES (41, 'x', 0, 'pending', 0)")
            .execute(&pool)
            .await
            .unwrap();
        run(&pool, queue_missing_track_at("a", 1)).await;
        assert_eq!(
            entries(&pool).await,
            vec![entry(41, "x", 0, "pending", 0, None), entry(42, "a", 1, "pending", 0, None)]
        );
        run(&pool, remove_queued_track(41)).await;
        run(&pool, queue_missing_track_at("b", 2)).await;
        assert_eq!(entries(&pool).await[1], entry(43, "b", 2, "pending", 0, None));
        assert_eq!(take(&pool, 3).await.unwrap().track_id, "a");
    });
}

#[test]
fn row_id_is_free_where_the_largest_is_taken() {
    block_on(async {
        let pool = database().await;
        sqlx::query("INSERT INTO missing_tracks_queue (rowid, track_id, enqueued_at, status, attempts) VALUES (9223372036854775807, 'x', 0, 'pending', 0)")
            .execute(&pool)
            .await
            .unwrap();
        run(&pool, queue_missing_track_at("a", 1)).await;
        assert_eq!(entries(&pool).await.len(), 2);
        assert_eq!(take(&pool, 2).await.unwrap().track_id, "a");
    });
}

#[test]
fn waiting_entry_goes_in_front_of_a_later_one() {
    block_on(async {
        let pool = database().await;
        run(&pool, queue_missing_track_at("first", 1)).await;
        let taken = take(&pool, 2).await.unwrap();
        run(&pool, queue_missing_track_at("second", 3)).await;
        run(&pool, reset_queued_track(taken.rowid)).await;
        assert_eq!(take(&pool, 4).await.unwrap().track_id, "first");
        assert_eq!(take(&pool, 5).await.unwrap().track_id, "second");
    });
}

fn other_song() -> Track {
    let mut track = song("trk2");
    track.name = "Another Song".to_string();
    track.track_number = 4;
    track.artists = vec![artist("art2", "Two"), artist("art3", "Three")];
    track
}

#[test]
fn track_of_a_known_album_reads_back() {
    block_on(async {
        let pool = database().await;
        assert_eq!(save(&pool, song("trk1"), 1).await, Stage::Saved);
        assert_eq!(save(&pool, other_song(), 2).await, Stage::Saved);
        sqlx::query("DELETE FROM track_artists WHERE track_rowid = 1").execute(&pool).await.unwrap();
        sqlx::query("DELETE FROM tracks WHERE rowid = 1").execute(&pool).await.unwrap();
        let document = find(&pool, "spotify").await.unwrap();
        assert_eq!(document["id"], "spotify:track:trk2");
        assert_eq!(document["name"], "Another Song");
        assert_eq!(document["track_number"], 4);
        assert_eq!(document["album"]["id"], "spotify:album:alb1");
        let mut artists: Vec<String> = document["artists"]
            .as_array()
            .unwrap()
            .iter()
            .map(|artist| artist["id"].as_str().unwrap().to_string())
            .collect();
        artists.sort();
        assert_eq!(artists, vec!["spotify:artist:art2", "spotify:artist:art3"]);
        assert_eq!(count(&pool, "artists").await, 4);
    });
}

async fn refuse_a_table(pool: &SqlitePool, table: &str) {
    let trigger = format!(
        "CREATE TRIGGER refuse BEFORE INSERT ON {} BEGIN SELECT RAISE(ABORT, 'refused'); END",
        table
    );
    sqlx::query(&trigger).execute(pool).await.unwrap();
}

const TABLES: [&str; 6] =
    ["available_markets", "albums", "tracks", "artists", "album_images", "track_artists"];

#[test]
fn save_that_fails_leaves_the_catalogue_as_it_was() {
    for refused in TABLES {
        block_on(async {
            let pool = database().await;
            assert_eq!(save(&pool, song("trk1"), 1).await, Stage::Saved);
            refuse_a_table(&pool, refused).await;
            let mut before = vec![];
            for table in TABLES {
                before.push(count(&pool, table).await);
            }
            assert_eq!(save(&pool, other_song(), 2).await, Stage::Failed);
            let mut after = vec![];
            for table in TABLES {
                after.push(count(&pool, table).await);
            }
            assert_eq!(after, before);
        });
    }
}

#[test]
fn taking_that_fails_leaves_the_queue_as_it_was() {
    block_on(async {
        let pool = database().await;
        run(&pool, queue_missing_track_at("a", 1)).await;
        let mut open = None;
        let mut state = Taking::Opening;
        for _ in 0..3 {
            let reply = step(&pool, &mut open, state.request().unwrap()).await.unwrap();
            state = take_next_queued_track_at(state, reply, 2);
        }
        assert_eq!(state.request(), Some(Request::Commit));
        drop(open);
        state = take_next_queued_track_at(state, Reply::Failed(sqlx::Error::PoolClosed), 3);
        assert!(matches!(state.into_result(), Some(Err(sqlx::Error::PoolClosed))));
        assert_eq!(entries(&pool).await, vec![entry(1, "a", 1, "pending", 0, None)]);
        assert_eq!(take(&pool, 4).await.unwrap().track_id, "a");
    });
}

#[test]
fn new_album_without_release_date_saves_nothing() {
    block_on(async {
        let pool = database().await;
        let mut track = song("trk1");
        track.album.release_date = None;
        assert_eq!(save(&pool, track, 1).await, Stage::Failed);
        for table in ["available_markets", "albums", "tracks", "artists", "album_images", "track_artists"] {
            assert_eq!(count(&pool, table).await, 0);
        }
    });
}

async fn assert_attempts_agree(pool: &SqlitePool) {
    for (_, _, _, status, attempts, last) in entries(pool).await {
        assert!(attempts >= 0);
        assert_eq!(last.is_none(), attempts == 0);
        assert!(status == "pending" || attempts >= 1);
    }
}

#[test]
fn attempts_agree_with_status_and_time() {
    block_on(async {
        let pool = database().await;
        for (id, now) in [("a", 1), ("b", 2), ("c", 3)] {
            run(&pool, queue_missing_track_at(id, now)).await;
            assert_attempts_agree(&pool).await;
        }
        for now in 10..14 {
            let taken = take(&pool, now).await.unwrap();
            assert_attempts_agree(&pool).await;
            if now % 2 == 0 {
                run(&pool, reset_queued_track(taken.rowid)).await;
            } else {
                run(&pool, remove_queued_track(taken.rowid)).await;
            }
            assert_attempts_agree(&pool).await;
        }
        assert_eq!(entries(&pool).await, vec![entry(3, "c", 3, "pending", 0, None)]);
    });
}

#[test]
fn takes_hand_out_each_waiting_entry_once() {
    block_on(async {
        let pool = database().await;
        for (id, now) in [("a", 1), ("b", 2), ("c", 3), ("d", 4)] {
            run(&pool, queue_missing_track_at(id, now)).await;
        }
        assert_eq!(take(&pool, 5).await.unwrap().rowid, 1);
        let mut rowids = vec![];
        for now in 6..9 {
            rowids.push(take(&pool, now).await.unwrap().rowid);
        }
        assert_eq!(rowids, vec![2, 3, 4]);
        assert_eq!(take(&pool, 9).await, None);
        assert_eq!(
            entries(&pool).await,
            vec![
                entry(1, "a", 1, "processing", 1, Some(5)),
                entry(2, "b", 2, "processing", 1, Some(6)),
                entry(3, "c", 3, "processing", 1, Some(7)),
                entry(4, "d", 4, "processing", 1, Some(8)),
            ]
        );
    });
}

#[test]
fn entry_is_marked_with_the_time_of_its_selection() {
    block_on(async {
        let pool = database().await;
        run(&pool, queue_missing_track_at("a", 1)).await;
        let mut open = None;
        let mut state = Taking::Opening;
        let mut now = 20;
        while let Some(request) = state.request() {
            let reply = step(&pool, &mut open, request).await.unwrap();
            state = take_next_queued_track_at(state, reply, now);
            now += 1;
        }
        assert_eq!(entries(&pool).await, vec![entry(1, "a", 1, "processing", 1, Some(21))]);
    });
}

#[test]
fn rows_have_the_time_of_the_opening() {
    block_on(async {
        let pool = database().await;
        let mut open = None;
        let mut state = Saving::new(song("trk1"));
        let mut now = 30;
        while let Some(request) = state.request() {
            let reply = step(&pool, &mut open, request).await.unwrap();
            state = save_to_sync_db_at(state, reply, now);
            now += 1;
        }
        assert_eq!(state.stage(), Stage::Saved);
        for table in ["albums", "tracks", "artists"] {
            let query = format!("SELECT fetched_at, id FROM {}", table);
            for (fetched_at, _) in rows(&pool, &query).await {
                assert_eq!(fetched_at, 30);
            }
        }
        assert_eq!(
            rows(&pool, "SELECT album_rowid, id FROM tracks").await,
            vec![(1, "spotify:track:trk1".to_string())]
        );
    });
}
