use spotify_resolver::queue::{
    queue_missing_track, queue_missing_track_at, remove_queued_track, reset_queued_track,
    take_next_queued_track, take_next_queued_track_at, Taking,
};
use spotify_resolver::sql::{Param, QueuedTrack, Reply, Request, Statement};

type Take = Taking<&'static str>;

fn item(rowid: i64, track_id: &str) -> QueuedTrack {
    QueuedTrack { rowid, track_id: track_id.to_string() }
}

#[test]
fn enqueue_binds_id_and_time() {
    let insert = queue_missing_track_at("abc", 1700000000);
    assert_eq!(
        insert.sql,
        "INSERT OR IGNORE INTO missing_tracks_queue (track_id, enqueued_at, status, attempts) VALUES (?, ?, 'pending', 0)"
    );
    assert_eq!(insert.params, vec![Param::Text("abc".to_string()), Param::Int(1700000000)]);
}

#[test]
fn enqueue_reads_the_clock() {
    let before = chrono::Utc::now().timestamp();
    let insert = queue_missing_track("abc");
    let after = chrono::Utc::now().timestamp();
    assert_eq!(insert.params.len(), 2);
    assert_eq!(insert.params[0], Param::Text("abc".to_string()));
    match insert.params[1] {
        Param::Int(now) => assert!(before <= now && now <= after),
        _ => panic!("the time is an integer"),
    }
}

#[test]
fn removal_and_reset_bind_the_row() {
    assert_eq!(
        remove_queued_track(7),
        Statement {
            sql: "DELETE FROM missing_tracks_queue WHERE rowid = ?",
            params: vec![Param::Int(7)],
        }
    );
    assert_eq!(
        reset_queued_track(-7),
        Statement {
            sql: "UPDATE missing_tracks_queue SET status = 'pending' WHERE rowid = ?",
            params: vec![Param::Int(-7)],
        }
    );
}

#[test]
fn taking_selects_marks_and_commits() {
    let mut state = Take::Opening;
    assert_eq!(state.request(), Some(Request::Begin));
    state = take_next_queued_track_at(state, Reply::Begun, 1);
    assert_eq!(
        state.request(),
        Some(Request::FetchQueued(Statement {
            sql: "SELECT rowid, track_id FROM missing_tracks_queue WHERE status = 'pending' ORDER BY rowid LIMIT 1",
            params: vec![],
        }))
    );
    state = take_next_queued_track_at(state, Reply::Queued(Some(item(5, "abc"))), 42);
    assert_eq!(
        state.request(),
        Some(Request::Execute(Statement {
            sql: "UPDATE missing_tracks_queue SET status = 'processing', attempts = attempts + 1, last_attempt_at = ? WHERE rowid = ?",
            params: vec![Param::Int(42), Param::Int(5)],
        }))
    );
    state = take_next_queued_track_at(state, Reply::Executed, 43);
    assert_eq!(state.request(), Some(Request::Commit));
    state = take_next_queued_track_at(state, Reply::Committed, 44);
    assert_eq!(state, Taking::Taken { taken: Some(item(5, "abc")) });
    assert_eq!(state.request(), None);
}

#[test]
fn empty_queue_commits_without_marking() {
    let mut state = Take::Opening;
    for reply in [Reply::Begun, Reply::Queued(None)] {
        state = take_next_queued_track(state, reply);
    }
    assert_eq!(state.request(), Some(Request::Commit));
    state = take_next_queued_track(state, Reply::Committed);
    assert_eq!(state, Taking::Taken { taken: None });
}

#[test]
fn failed_step_ends_taking() {
    let paths = [
        vec![],
        vec![Reply::Begun],
        vec![Reply::Begun, Reply::Queued(Some(item(1, "a")))],
        vec![Reply::Begun, Reply::Queued(Some(item(1, "a"))), Reply::Executed],
    ];
    for path in paths {
        let mut state = Take::Opening;
        for reply in path {
            state = take_next_queued_track(state, reply);
        }
        state = take_next_queued_track(state, Reply::Failed("locked"));
        assert_eq!(state, Take::Failed { error: "locked" });
        assert_eq!(state.request(), None);
        state = take_next_queued_track(state, Reply::Failed("again"));
        state = take_next_queued_track(state, Reply::Committed);
        assert_eq!(state.into_result(), Some(Err("locked")));
    }
}

#[test]
fn stray_reply_changes_nothing_in_taking() {
    let state = take_next_queued_track(Take::Opening, Reply::Executed);
    assert_eq!(state, Taking::Opening);
    let state = take_next_queued_track(Take::Selecting, Reply::Rowid(3));
    assert_eq!(state, Taking::Selecting);
    let done = Take::Taken { taken: Some(item(1, "a")) };
    let state = take_next_queued_track(done, Reply::Failed("late"));
    assert_eq!(state, Taking::Taken { taken: Some(item(1, "a")) });
}

#[test]
fn marking_reads_the_clock() {
    let before = chrono::Utc::now().timestamp();
    let state = take_next_queued_track(Take::Selecting, Reply::Queued(Some(item(1, "a"))));
    let after = chrono::Utc::now().timestamp();
    match state {
        Taking::Marking { now, .. } => assert!(before <= now && now <= after),
        _ => panic!("an entry that is selected is marked"),
    }
}

#[test]
fn result_is_there_once_taking_is_over() {
    assert_eq!(Take::Opening.into_result(), None);
    assert_eq!(Take::Selecting.into_result(), None);
    assert_eq!(Take::Committing { taken: None }.into_result(), None);
    assert_eq!(Take::Taken { taken: None }.into_result(), Some(Ok(None)));
    assert_eq!(
        Take::Taken { taken: Some(item(4, "d")) }.into_result(),
        Some(Ok(Some(item(4, "d"))))
    );
}
