//! The transaction that enters a track, its album and its artists into the catalogue.

use vstd::prelude::*;

use crate::catalog::Track;
use crate::catalog_sql::{
    insert_album, insert_artist, insert_image, insert_markets, insert_track, link_artist,
    select_album, select_artist, select_track,
};
use crate::clock::read_clock;
use crate::sql::{Reply, Request};

verus! {

use crate::catalog::TrackView;
use crate::catalog_sql::{
    album_rowid_statement,
    album_statement,
    artist_rowid_statement,
    artist_statement,
    image_statement,
    link_statement,
    markets_statement,
    track_rowid_statement,
    track_statement,
};
use crate::clock::clock_gave;
use crate::sql::{request_view, ReplyView, RequestView};

/// How far the transaction has come. `now` is the time it was opened; the row ids are
/// those that it has read on the way.
#[derive(Clone, Copy, Debug, PartialEq, Eq, Structural)]
pub enum Stage {
    /// The transaction is to be opened.
    Opening,
    /// The markets are to be made sure of.
    Markets { now: i64 },
    /// The album is to be entered.
    Album { now: i64 },
    /// The album's row is to be found.
    AlbumRowid { now: i64 },
    /// A picture of the album is to be entered.
    Image { now: i64, album_rowid: i64, index: usize },
    /// The track is to be entered.
    Track { now: i64, album_rowid: i64 },
    /// The track's row is to be found.
    TrackRowid { now: i64 },
    /// An artist is to be entered.
    Artist { now: i64, track_rowid: i64, index: usize },
    /// The artist's row is to be found.
    ArtistRowid { now: i64, track_rowid: i64, index: usize },
    /// The artist is to be linked to the track.
    Link { now: i64, track_rowid: i64, index: usize, artist_rowid: i64 },
    /// The transaction is to be committed.
    Committing,
    /// The track is in the catalogue.
    Saved,
    /// A step failed. The transaction is to be dropped.
    Failed,
}

/// The pictures and the artists that the stage speaks of are there.
pub open spec fn stage_fits(track: TrackView, stage: Stage) -> bool {
    match stage {
        Stage::Image { index, .. } => index < track.album.images.len(),
        Stage::Artist { index, .. } => index < track.artists.len(),
        Stage::ArtistRowid { index, .. } => index < track.artists.len(),
        Stage::Link { index, .. } => index < track.artists.len(),
        _ => true,
    }
}

/// The transaction is over.
pub open spec fn is_over(stage: Stage) -> bool {
    stage == Stage::Saved || stage == Stage::Failed
}

/// What the transaction asks for at this stage; nothing once it is over.
pub open spec fn stage_request(track: TrackView, stage: Stage) -> Option<RequestView> {
    match stage {
        Stage::Opening => Some(RequestView::Begin),
        Stage::Markets { .. } => Some(RequestView::Execute(markets_statement())),
        Stage::Album { now } => Some(RequestView::Execute(album_statement(track.album, now))),
        Stage::AlbumRowid { .. } => Some(
            RequestView::FetchRowid(album_rowid_statement(track.album)),
        ),
        Stage::Image { album_rowid, index, .. } => Some(
            RequestView::Execute(image_statement(track.album.images[index as int], album_rowid)),
        ),
        Stage::Track { now, album_rowid } => Some(
            RequestView::Execute(track_statement(track, now, album_rowid)),
        ),
        Stage::TrackRowid { .. } => Some(RequestView::FetchRowid(track_rowid_statement(track))),
        Stage::Artist { now, index, .. } => Some(
            RequestView::Execute(artist_statement(track.artists[index as int], now)),
        ),
        Stage::ArtistRowid { index, .. } => Some(
            RequestView::FetchRowid(artist_rowid_statement(track.artists[index as int])),
        ),
        Stage::Link { track_rowid, artist_rowid, .. } => Some(
            RequestView::Execute(link_statement(track_rowid, artist_rowid)),
        ),
        Stage::Committing => Some(RequestView::Commit),
        Stage::Saved => None,
        Stage::Failed => None,
    }
}

/// The stage at which the pictures from `index` on are left to enter.
pub open spec fn images_from(track: TrackView, now: i64, album_rowid: i64, index: int) -> Stage {
    if index < track.album.images.len() {
        Stage::Image { now, album_rowid, index: index as usize }
    } else {
        Stage::Track { now, album_rowid }
    }
}

/// The stage at which the artists from `index` on are left to enter.
pub open spec fn artists_from(track: TrackView, now: i64, track_rowid: i64, index: int) -> Stage {
    if index < track.artists.len() {
        Stage::Artist { now, track_rowid, index: index as usize }
    } else {
        Stage::Committing
    }
}

/// The stage behind `reply`, which arrived at the time `clock`. A failure ends the
/// transaction; a reply that does not answer the request changes nothing.
pub open spec fn stage_after<E>(
    track: TrackView,
    stage: Stage,
    reply: ReplyView<E>,
    clock: i64,
) -> Stage {
    match (stage, reply) {
        (Stage::Saved, _) => Stage::Saved,
        (_, ReplyView::Failed(_)) => Stage::Failed,
        (Stage::Opening, ReplyView::Begun) => Stage::Markets { now: clock },
        (Stage::Markets { now }, ReplyView::Executed) => Stage::Album { now },
        (Stage::Album { now }, ReplyView::Executed) => Stage::AlbumRowid { now },
        (Stage::AlbumRowid { now }, ReplyView::Rowid(rowid)) => images_from(track, now, rowid, 0),
        (Stage::Image { now, album_rowid, index }, ReplyView::Executed) => images_from(
            track,
            now,
            album_rowid,
            index + 1,
        ),
        (Stage::Track { now, .. }, ReplyView::Executed) => Stage::TrackRowid { now },
        (Stage::TrackRowid { now }, ReplyView::Rowid(rowid)) => artists_from(track, now, rowid, 0),
        (
            Stage::Artist { now, track_rowid, index },
            ReplyView::Executed,
        ) => Stage::ArtistRowid { now, track_rowid, index },
        (
            Stage::ArtistRowid { now, track_rowid, index },
            ReplyView::Rowid(rowid),
        ) => Stage::Link { now, track_rowid, index, artist_rowid: rowid },
        (Stage::Link { now, track_rowid, index, .. }, ReplyView::Executed) => artists_from(
            track,
            now,
            track_rowid,
            index + 1,
        ),
        (Stage::Committing, ReplyView::Committed) => Stage::Saved,
        _ => stage,
    }
}

/// The transaction that enters one track. `E` is what the database calls an error.
#[derive(Debug, PartialEq, Eq)]
pub struct Saving<E> {
    track: Track,
    stage: Stage,
    error: Option<E>,
}

/// The transaction, its texts as sequences. The error is there where it has failed.
pub struct SavingView<E> {
    pub track: TrackView,
    pub stage: Stage,
    pub error: Option<E>,
}

impl<E> View for Saving<E> {
    type V = SavingView<E>;

    closed spec fn view(&self) -> SavingView<E> {
        SavingView { track: self.track@, stage: self.stage, error: self.error }
    }
}

/// The transaction before its first step.
pub open spec fn saving_start<E>(track: TrackView) -> SavingView<E> {
    SavingView { track, stage: Stage::Opening, error: None }
}

/// What the transaction asks for; nothing once it is over.
pub open spec fn saving_request<E>(state: SavingView<E>) -> Option<RequestView> {
    stage_request(state.track, state.stage)
}

/// The transaction behind `reply`, which arrived at the time `clock`. The failure that
/// ends it leaves its error.
pub open spec fn saving_after<E>(
    state: SavingView<E>,
    reply: ReplyView<E>,
    clock: i64,
) -> SavingView<E> {
    SavingView {
        track: state.track,
        stage: stage_after(state.track, state.stage, reply, clock),
        error: match reply {
            ReplyView::Failed(error) => if is_over(state.stage) {
                state.error
            } else {
                Some(error)
            },
            _ => state.error,
        },
    }
}

impl<E> Saving<E> {
    #[verifier::type_invariant]
    spec fn fits(self) -> bool {
        &&& stage_fits(self.track@, self.stage)
        &&& self.error is Some <==> self.stage == Stage::Failed
    }

    /// The transaction before its first step.
    pub fn new(track: Track) -> (state: Saving<E>)
        ensures
            state@ == saving_start::<E>(track@),
    {
        Saving { track, stage: Stage::Opening, error: None }
    }

    /// How far the transaction has come.
    pub fn stage(&self) -> (stage: Stage)
        ensures
            stage == self@.stage,
            stage_fits(self@.track, stage),
            self@.error is Some <==> stage == Stage::Failed,
    {
        proof {
            use_type_invariant(self);
        }
        self.stage
    }

    /// That the track is saved, or the error that ended the transaction; nothing before
    /// the transaction is over.
    pub fn into_result(self) -> (result: Option<Result<(), E>>)
        ensures
            match result {
                Some(Ok(_)) => self@.stage == Stage::Saved,
                Some(Err(error)) => self@.stage == Stage::Failed && self@.error == Some(error),
                None => !is_over(self@.stage),
            },
    {
        proof {
            use_type_invariant(&self);
        }
        match self.stage {
            Stage::Saved => Some(Ok(())),
            Stage::Failed => match self.error {
                Some(error) => Some(Err(error)),
                None => None,
            },
            _ => None,
        }
    }

    /// What the transaction asks for; nothing once it is over.
    pub fn request(&self) -> (request: Option<Request>)
        ensures
            request_view(request) == saving_request(self@),
    {
        proof {
            use_type_invariant(self);
        }
        let track: &Track = &self.track;
        match self.stage {
            Stage::Opening => Some(Request::Begin),
            Stage::Markets { now: _ } => Some(Request::Execute(insert_markets())),
            Stage::Album { now } => Some(Request::Execute(insert_album(track, now))),
            Stage::AlbumRowid { now: _ } => Some(Request::FetchRowid(select_album(track))),
            Stage::Image { now: _, album_rowid, index } => Some(
                Request::Execute(insert_image(&track.album.images[index], album_rowid)),
            ),
            Stage::Track { now, album_rowid } => Some(
                Request::Execute(insert_track(track, now, album_rowid)),
            ),
            Stage::TrackRowid { now: _ } => Some(Request::FetchRowid(select_track(track))),
            Stage::Artist { now, track_rowid: _, index } => Some(
                Request::Execute(insert_artist(&track.artists[index], now)),
            ),
            Stage::ArtistRowid { now: _, track_rowid: _, index } => Some(
                Request::FetchRowid(select_artist(&track.artists[index])),
            ),
            Stage::Link { now: _, track_rowid, index: _, artist_rowid } => Some(
                Request::Execute(link_artist(track_rowid, artist_rowid)),
            ),
            Stage::Committing => Some(Request::Commit),
            Stage::Saved => None,
            Stage::Failed => None,
        }
    }
}

fn next_image(track: &Track, now: i64, album_rowid: i64, index: usize) -> (stage: Stage)
    ensures
        stage == images_from(track@, now, album_rowid, index as int),
{
    if index < track.album.images.len() {
        Stage::Image { now, album_rowid, index }
    } else {
        Stage::Track { now, album_rowid }
    }
}

fn next_artist(track: &Track, now: i64, track_rowid: i64, index: usize) -> (stage: Stage)
    ensures
        stage == artists_from(track@, now, track_rowid, index as int),
{
    if index < track.artists.len() {
        Stage::Artist { now, track_rowid, index }
    } else {
        Stage::Committing
    }
}

/// The transaction behind `reply`, which arrived at the time `clock`.
pub fn save_to_sync_db_at<E>(state: Saving<E>, reply: Reply<E>, clock: i64) -> (next: Saving<E>)
    ensures
        next@ == saving_after(state@, reply@, clock),
{
    proof {
        use_type_invariant(&state);
    }
    let track: &Track = &state.track;
    assert(track@.album.images.len() == track.album.images.len());
    assert(track@.artists.len() == track.artists.len());
    let stage: Stage = match (state.stage, reply) {
        (Stage::Saved, _) => Stage::Saved,
        (Stage::Failed, _) => Stage::Failed,
        (_, Reply::Failed(error)) => {
            return Saving { track: state.track, stage: Stage::Failed, error: Some(error) };
        },
        (Stage::Opening, Reply::Begun) => Stage::Markets { now: clock },
        (Stage::Markets { now }, Reply::Executed) => Stage::Album { now },
        (Stage::Album { now }, Reply::Executed) => Stage::AlbumRowid { now },
        (Stage::AlbumRowid { now }, Reply::Rowid(rowid)) => next_image(track, now, rowid, 0),
        (Stage::Image { now, album_rowid, index }, Reply::Executed) => next_image(
            track,
            now,
            album_rowid,
            index + 1,
        ),
        (Stage::Track { now, album_rowid: _ }, Reply::Executed) => Stage::TrackRowid { now },
        (Stage::TrackRowid { now }, Reply::Rowid(rowid)) => next_artist(track, now, rowid, 0),
        (Stage::Artist { now, track_rowid, index }, Reply::Executed) => Stage::ArtistRowid {
            now,
            track_rowid,
            index,
        },
        (Stage::ArtistRowid { now, track_rowid, index }, Reply::Rowid(rowid)) => Stage::Link {
            now,
            track_rowid,
            index,
            artist_rowid: rowid,
        },
        (
            Stage::Link { now, track_rowid, index, artist_rowid: _ },
            Reply::Executed,
        ) => next_artist(track, now, track_rowid, index + 1),
        (Stage::Committing, Reply::Committed) => Stage::Saved,
        (stage, _) => stage,
    };
    Saving { track: state.track, stage, error: state.error }
}

/// The transaction behind `reply`. The clock is read once the transaction is open.
pub fn save_to_sync_db<E>(state: Saving<E>, reply: Reply<E>) -> (next: Saving<E>)
    ensures
        exists|clock: i64|
            {
                &&& 0 <= clock
                &&& clock_gave(clock) || forall|other: i64| #[trigger]
                    saving_after(state@, reply@, other) == next@
                &&& next@ == #[trigger] saving_after(state@, reply@, clock)
            },
{
    let clock: i64 = match (state.stage, &reply) {
        (Stage::Opening, Reply::Begun) => read_clock(),
        _ => 0,
    };
    assert(saving_after(state@, reply@, clock) == saving_after(state@, reply@, clock));
    save_to_sync_db_at(state, reply, clock)
}

} // verus!
