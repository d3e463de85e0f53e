//! The statements that enter a track, its album and its artists into the catalogue.

use vstd::prelude::*;

use crate::catalog::{Artist, Image, Track, ISRC};
use crate::ids::{storage_key, ObjectKind};
use crate::sql::{bind_text, Param, Statement};

verus! {

use crate::catalog::{external_id_in, AlbumView, ArtistView, ImageView, TrackView};
use crate::ids::key_of;
use crate::sql::{bound_text, statement, ParamView, StatementView};

/// Makes sure of the one entry for the markets that a track is sold in.
pub const INSERT_MARKETS: &'static str = "INSERT OR IGNORE INTO available_markets (rowid, available_markets) VALUES (1, 'ALL')";

/// Enters an album.
pub const INSERT_ALBUM: &'static str = "INSERT OR IGNORE INTO albums (id, fetched_at, name, album_type, available_markets_rowid, label, popularity, release_date, release_date_precision, total_tracks) 
         VALUES (?, ?, ?, ?, 1, 'Unknown', ?, ?, ?, ?)";

/// Finds an album's row.
pub const SELECT_ALBUM: &'static str = "SELECT rowid FROM albums WHERE id = ?";

/// Enters a picture of an album.
pub const INSERT_IMAGE: &'static str = "INSERT INTO album_images (album_rowid, width, height, url) VALUES (?, ?, ?, ?)";

/// Enters a track.
pub const INSERT_TRACK: &'static str = "INSERT OR IGNORE INTO tracks (id, fetched_at, name, preview_url, album_rowid, track_number, external_id_isrc, popularity, available_markets_rowid, disc_number, duration_ms, explicit)
         VALUES (?, ?, ?, ?, ?, ?, ?, ?, 1, ?, ?, ?)";

/// Finds a track's row.
pub const SELECT_TRACK: &'static str = "SELECT rowid FROM tracks WHERE id = ?";

/// Enters an artist.
pub const INSERT_ARTIST: &'static str = "INSERT OR IGNORE INTO artists (id, fetched_at, name, followers_total, popularity) VALUES (?, ?, ?, 0, 0)";

/// Finds an artist's row.
pub const SELECT_ARTIST: &'static str = "SELECT rowid FROM artists WHERE id = ?";

/// Links an artist to a track.
pub const LINK_ARTIST: &'static str = "INSERT OR IGNORE INTO track_artists (track_rowid, artist_rowid) VALUES (?, ?)";

/// The album type that every album is entered with.
pub const ALBUM_TYPE: &'static str = "album";

/// The precision that every release date is entered with.
pub const DATE_PRECISION: &'static str = "day";

/// The key that a track is stored under.
pub open spec fn track_key(track: TrackView) -> Seq<char> {
    key_of(ObjectKind::Track, track.id)
}

/// The key that a track's album is stored under.
pub open spec fn album_key(album: AlbumView) -> Seq<char> {
    key_of(ObjectKind::Album, album.id)
}

/// The key that an artist is stored under.
pub open spec fn artist_key(artist: ArtistView) -> Seq<char> {
    key_of(ObjectKind::Artist, artist.id)
}

/// A size in pixels as it is stored; an unknown one as nought.
pub open spec fn stored_size(size: Option<u32>) -> i64 {
    match size {
        Some(size) => size as i64,
        None => 0,
    }
}

/// The statement that makes sure of the markets.
pub open spec fn markets_statement() -> StatementView {
    statement(INSERT_MARKETS, seq![])
}

/// The statement that enters an album, fetched at the time `now`.
pub open spec fn album_statement(album: AlbumView, now: i64) -> StatementView {
    statement(
        INSERT_ALBUM,
        seq![
            ParamView::Text(album_key(album)),
            ParamView::Int(now),
            ParamView::Text(album.name),
            ParamView::Text(ALBUM_TYPE@),
            ParamView::Int(0),
            bound_text(album.release_date),
            ParamView::Text(DATE_PRECISION@),
            ParamView::Int(0),
        ],
    )
}

/// The statement that finds an album's row.
pub open spec fn album_rowid_statement(album: AlbumView) -> StatementView {
    statement(SELECT_ALBUM, seq![ParamView::Text(album_key(album))])
}

/// The statement that enters a picture of the album in the row `album_rowid`.
pub open spec fn image_statement(image: ImageView, album_rowid: i64) -> StatementView {
    statement(
        INSERT_IMAGE,
        seq![
            ParamView::Int(album_rowid),
            ParamView::Int(stored_size(image.width)),
            ParamView::Int(stored_size(image.height)),
            ParamView::Text(image.url),
        ],
    )
}

/// The statement that enters a track of the album in the row `album_rowid`, fetched
/// at the time `now`.
pub open spec fn track_statement(track: TrackView, now: i64, album_rowid: i64) -> StatementView {
    statement(
        INSERT_TRACK,
        seq![
            ParamView::Text(track_key(track)),
            ParamView::Int(now),
            ParamView::Text(track.name),
            bound_text(track.preview_url),
            ParamView::Int(album_rowid),
            ParamView::Int(track.track_number as i64),
            bound_text(external_id_in(track.external_ids, ISRC@)),
            ParamView::Int(0),
            ParamView::Int(track.disc_number as i64),
            ParamView::Int(track.duration_ms),
            ParamView::Bool(track.explicit),
        ],
    )
}

/// The statement that finds a track's row.
pub open spec fn track_rowid_statement(track: TrackView) -> StatementView {
    statement(SELECT_TRACK, seq![ParamView::Text(track_key(track))])
}

/// The statement that enters an artist, fetched at the time `now`.
pub open spec fn artist_statement(artist: ArtistView, now: i64) -> StatementView {
    statement(
        INSERT_ARTIST,
        seq![
            ParamView::Text(artist_key(artist)),
            ParamView::Int(now),
            ParamView::Text(artist.name),
        ],
    )
}

/// The statement that finds an artist's row.
pub open spec fn artist_rowid_statement(artist: ArtistView) -> StatementView {
    statement(SELECT_ARTIST, seq![ParamView::Text(artist_key(artist))])
}

/// The statement that links the artist in one row to the track in another.
pub open spec fn link_statement(track_rowid: i64, artist_rowid: i64) -> StatementView {
    statement(LINK_ARTIST, seq![ParamView::Int(track_rowid), ParamView::Int(artist_rowid)])
}

fn size_param(size: &Option<u32>) -> (param: Param)
    ensures
        param@ == ParamView::Int(stored_size(*size)),
{
    match size {
        Some(size) => Param::Int(*size as i64),
        None => Param::Int(0),
    }
}

pub(crate) fn insert_markets() -> (insert: Statement)
    ensures
        insert@ == markets_statement(),
{
    let insert = Statement { sql: INSERT_MARKETS, params: Vec::new() };
    assert(insert@.params =~= markets_statement().params);
    insert
}

pub(crate) fn insert_album(track: &Track, now: i64) -> (insert: Statement)
    ensures
        insert@ == album_statement(track@.album, now),
{
    let insert = Statement {
        sql: INSERT_ALBUM,
        params: vec![
            Param::Text(storage_key(ObjectKind::Album, &track.album.id)),
            Param::Int(now),
            Param::Text(track.album.name.clone()),
            Param::Text(ALBUM_TYPE.to_owned()),
            Param::Int(0),
            bind_text(&track.album.release_date),
            Param::Text(DATE_PRECISION.to_owned()),
            Param::Int(0),
        ],
    };
    assert(insert@.params =~= album_statement(track@.album, now).params);
    insert
}

pub(crate) fn select_album(track: &Track) -> (select: Statement)
    ensures
        select@ == album_rowid_statement(track@.album),
{
    let select = Statement {
        sql: SELECT_ALBUM,
        params: vec![Param::Text(storage_key(ObjectKind::Album, &track.album.id))],
    };
    assert(select@.params =~= album_rowid_statement(track@.album).params);
    select
}

pub(crate) fn insert_image(image: &Image, album_rowid: i64) -> (insert: Statement)
    ensures
        insert@ == image_statement(image@, album_rowid),
{
    let insert = Statement {
        sql: INSERT_IMAGE,
        params: vec![
            Param::Int(album_rowid),
            size_param(&image.width),
            size_param(&image.height),
            Param::Text(image.url.clone()),
        ],
    };
    assert(insert@.params =~= image_statement(image@, album_rowid).params);
    insert
}

pub(crate) fn insert_track(track: &Track, now: i64, album_rowid: i64) -> (insert: Statement)
    ensures
        insert@ == track_statement(track@, now, album_rowid),
{
    let isrc: Option<String> = track.external_ids.get(ISRC);
    let insert = Statement {
        sql: INSERT_TRACK,
        params: vec![
            Param::Text(storage_key(ObjectKind::Track, &track.id)),
            Param::Int(now),
            Param::Text(track.name.clone()),
            bind_text(&track.preview_url),
            Param::Int(album_rowid),
            Param::Int(track.track_number as i64),
            bind_text(&isrc),
            Param::Int(0),
            Param::Int(track.disc_number as i64),
            Param::Int(track.duration_ms),
            Param::Bool(track.explicit),
        ],
    };
    assert(insert@.params =~= track_statement(track@, now, album_rowid).params);
    insert
}

pub(crate) fn select_track(track: &Track) -> (select: Statement)
    ensures
        select@ == track_rowid_statement(track@),
{
    let select = Statement {
        sql: SELECT_TRACK,
        params: vec![Param::Text(storage_key(ObjectKind::Track, &track.id))],
    };
    assert(select@.params =~= track_rowid_statement(track@).params);
    select
}

pub(crate) fn insert_artist(artist: &Artist, now: i64) -> (insert: Statement)
    ensures
        insert@ == artist_statement(artist@, now),
{
    let insert = Statement {
        sql: INSERT_ARTIST,
        params: vec![
            Param::Text(storage_key(ObjectKind::Artist, &artist.id)),
            Param::Int(now),
            Param::Text(artist.name.clone()),
        ],
    };
    assert(insert@.params =~= artist_statement(artist@, now).params);
    insert
}

pub(crate) fn select_artist(artist: &Artist) -> (select: Statement)
    ensures
        select@ == artist_rowid_statement(artist@),
{
    let select = Statement {
        sql: SELECT_ARTIST,
        params: vec![Param::Text(storage_key(ObjectKind::Artist, &artist.id))],
    };
    assert(select@.params =~= artist_rowid_statement(artist@).params);
    select
}

pub(crate) fn link_artist(track_rowid: i64, artist_rowid: i64) -> (insert: Statement)
    ensures
        insert@ == link_statement(track_rowid, artist_rowid),
{
    let insert = Statement {
        sql: LINK_ARTIST,
        params: vec![Param::Int(track_rowid), Param::Int(artist_rowid)],
    };
    assert(insert@.params =~= link_statement(track_rowid, artist_rowid).params);
    insert
}

} // verus!
