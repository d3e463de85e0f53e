use spotify_resolver::catalog::{Album, ExternalIds, Track};
use spotify_resolver::queue::{remove_queued_track, reset_queued_track};
use spotify_resolver::sql::{QueuedTrack, Reply, Request};
use spotify_resolver::worker::{spotify_worker, Worker, WorkerAction, WorkerEvent};

type Work = Worker<&'static str>;
type Event = WorkerEvent<&'static str, &'static str>;

fn track() -> Track {
    Track {
        id: None,
        name: "t".to_string(),
        preview_url: None,
        track_number: 1,
        disc_number: 1,
        duration_ms: 1,
        explicit: false,
        external_ids: ExternalIds::new(),
        album: Album { id: None, name: "a".to_string(), release_date: None, images: vec![] },
        artists: vec![],
    }
}

fn send(worker: Work, replies: Vec<Reply<&'static str>>) -> Work {
    let mut worker = worker;
    for reply in replies {
        match worker.action() {
            WorkerAction::Transact(_) => {}
            _ => panic!("a transaction goes on"),
        }
        worker = spotify_worker(worker, Event::Transacted(reply));
    }
    worker
}

fn looking() -> Work {
    let worker = Work::new();
    assert_eq!(worker.action(), WorkerAction::RequestToken);
    let worker = spotify_worker(worker, Event::TokenRequested(Ok(())));
    assert_eq!(worker.action(), WorkerAction::Transact(Request::Begin));
    worker
}

fn taken(track_id: &str) -> Work {
    let entry = QueuedTrack { rowid: 9, track_id: track_id.to_string() };
    send(
        looking(),
        vec![Reply::Begun, Reply::Queued(Some(entry)), Reply::Executed, Reply::Committed],
    )
}

fn rests_and_looks_again(worker: Work) {
    assert_eq!(worker.action(), WorkerAction::Rest(3));
    let worker = spotify_worker(worker, Event::Rested);
    assert_eq!(worker.action(), WorkerAction::Transact(Request::Begin));
}

fn saving() -> Work {
    spotify_worker(taken("abc"), Event::TrackFetched(Ok(track())))
}

#[test]
fn saved_track_leaves_the_queue() {
    let worker = taken("abc");
    assert_eq!(worker.action(), WorkerAction::FetchTrack("abc".to_string()));
    let worker = spotify_worker(worker, Event::TrackFetched(Ok(track())));
    let worker = send(
        worker,
        vec![
            Reply::Begun,
            Reply::Executed,
            Reply::Executed,
            Reply::Rowid(1),
            Reply::Executed,
            Reply::Rowid(2),
            Reply::Committed,
        ],
    );
    assert_eq!(worker.action(), WorkerAction::Run(remove_queued_track(9)));
    rests_and_looks_again(spotify_worker(worker, Event::Ran(Ok(()))));
}

#[test]
fn failed_save_makes_the_entry_pending_again() {
    let worker = send(saving(), vec![Reply::Begun, Reply::Executed, Reply::Failed("locked")]);
    assert_eq!(worker.action(), WorkerAction::Run(reset_queued_track(9)));
    rests_and_looks_again(spotify_worker(worker, Event::Ran(Ok(()))));
}

#[test]
fn failed_fetch_makes_the_entry_pending_again() {
    let worker = spotify_worker(taken("abc"), Event::TrackFetched(Err("not found")));
    assert_eq!(worker.action(), WorkerAction::Run(reset_queued_track(9)));
    rests_and_looks_again(spotify_worker(worker, Event::Ran(Ok(()))));
}

#[test]
fn malformed_id_leaves_the_queue_unfetched() {
    let worker = taken("not-an-id");
    assert_eq!(worker.action(), WorkerAction::Run(remove_queued_track(9)));
    rests_and_looks_again(spotify_worker(worker, Event::Ran(Ok(()))));
}

#[test]
fn empty_id_is_fetched() {
    assert_eq!(taken("").action(), WorkerAction::FetchTrack("".to_string()));
}

#[test]
fn nothing_taken_means_rest() {
    rests_and_looks_again(send(looking(), vec![Reply::Begun, Reply::Queued(None), Reply::Committed]));
    rests_and_looks_again(send(looking(), vec![Reply::Failed("locked")]));
    rests_and_looks_again(send(looking(), vec![Reply::Begun, Reply::Failed("locked")]));
}

#[test]
fn stray_event_changes_nothing_in_the_worker() {
    let worker = spotify_worker(taken("abc"), Event::Rested);
    assert_eq!(worker.action(), WorkerAction::FetchTrack("abc".to_string()));
    let worker = spotify_worker(worker, Event::Transacted(Reply::Failed("locked")));
    assert_eq!(worker.action(), WorkerAction::FetchTrack("abc".to_string()));
    let worker = spotify_worker(saving(), Event::TrackFetched(Err("not found")));
    assert_eq!(worker.action(), WorkerAction::Transact(Request::Begin));
}

#[test]
fn taken_entry_is_held_until_it_is_settled() {
    let worker = spotify_worker(taken("abc"), Event::TrackFetched(Err("not found")));
    let worker = spotify_worker(worker, Event::Rested);
    let worker = spotify_worker(worker, Event::TokenRequested(Ok(())));
    assert_eq!(worker.action(), WorkerAction::Run(reset_queued_track(9)));
}

#[test]
fn failed_token_and_failed_statements_make_no_difference() {
    let worker = spotify_worker(Work::new(), Event::TokenRequested(Err("no network")));
    assert_eq!(worker, looking());
    let worker = spotify_worker(taken("not-an-id"), Event::Ran(Err("locked")));
    rests_and_looks_again(worker);
    let worker = spotify_worker(taken("abc"), Event::TrackFetched(Err("not found")));
    rests_and_looks_again(spotify_worker(worker, Event::Ran(Err("locked"))));
}

#[test]
fn every_round_has_its_rest() {
    let mut worker = Work::new();
    let mut rests = 0;
    let mut looks = 0;
    let mut fetches = 0;
    for step in 0..200 {
        let event = match worker.action() {
            WorkerAction::RequestToken => Event::TokenRequested(Ok(())),
            WorkerAction::Transact(Request::Begin) => Event::Transacted(Reply::Begun),
            WorkerAction::Transact(Request::FetchQueued(_)) => {
                looks += 1;
                assert_eq!(looks, rests + 1);
                let entry = QueuedTrack { rowid: step, track_id: "abc".to_string() };
                Event::Transacted(Reply::Queued(Some(entry)))
            }
            WorkerAction::Transact(Request::FetchRowid(_)) => Event::Transacted(Reply::Rowid(1)),
            WorkerAction::Transact(Request::Execute(_)) => Event::Transacted(Reply::Executed),
            WorkerAction::Transact(Request::Commit) => Event::Transacted(Reply::Committed),
            WorkerAction::FetchTrack(_) => {
                fetches += 1;
                assert_eq!(fetches, rests + 1);
                Event::TrackFetched(Ok(track()))
            }
            WorkerAction::Run(_) => Event::Ran(Ok(())),
            WorkerAction::Rest(seconds) => {
                rests += 1;
                assert_eq!(seconds, 3);
                Event::Rested
            }
        };
        worker = spotify_worker(worker, event);
    }
    assert!(rests > 5);
}
