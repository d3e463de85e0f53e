//! What the catalogue holds, what the statements of a transaction do to it, and what a
//! lookup reads out of it. This is a model of SQLite and of the tables: nothing here is
//! proved of SQLite itself, and `tests/sqlite.rs` tries it. The columns of an album that
//! no statement writes and no lookup reads are left out.

use vstd::multiset::Multiset;
use vstd::prelude::*;

verus! {

use crate::catalog::{external_id_in, AlbumView, ArtistView, ImageView, TrackView, ISRC};
use crate::catalog_sql::{
    album_key,
    artist_key,
    stored_size,
    track_key,
    ALBUM_TYPE,
    DATE_PRECISION,
    INSERT_ALBUM,
    INSERT_ARTIST,
    INSERT_IMAGE,
    INSERT_MARKETS,
    INSERT_TRACK,
    LINK_ARTIST,
    SELECT_ALBUM,
    SELECT_ARTIST,
    SELECT_TRACK,
};
use crate::resolve_laws::precedes;
use crate::save::{saving_request, stage_request, Stage};
use crate::save_laws::{granted_run, read_at, read_in, saving_run, script, Rowids};
use crate::sql::{ParamView, ReplyView, RequestView, StatementView};
use crate::tables::{grants, row_added};

/// The row that holds the markets of every track and album that is entered.
pub const MARKETS_ROWID: i64 = 1;

/// What that row says where it is entered.
pub const ALL_MARKETS: &'static str = "ALL";

/// The label that every album is entered with.
pub const UNKNOWN_LABEL: &'static str = "Unknown";

/// A row of the albums.
pub struct AlbumRow {
    pub key: Seq<char>,
    pub fetched_at: i64,
    pub name: Seq<char>,
    pub album_type: Seq<char>,
    pub available_markets_rowid: i64,
    pub label: Seq<char>,
    pub popularity: i64,
    pub release_date: Seq<char>,
    pub release_date_precision: Seq<char>,
    pub total_tracks: i64,
}

/// A row of the albums' pictures.
pub struct ImageRow {
    pub album_rowid: i64,
    pub width: i64,
    pub height: i64,
    pub url: Seq<char>,
}

/// A row of the tracks.
pub struct TrackRow {
    pub key: Seq<char>,
    pub fetched_at: i64,
    pub name: Seq<char>,
    pub preview_url: Option<Seq<char>>,
    pub album_rowid: i64,
    pub track_number: i64,
    pub isrc: Option<Seq<char>>,
    pub popularity: i64,
    pub available_markets_rowid: i64,
    pub disc_number: i64,
    pub duration_ms: i64,
    pub explicit: bool,
}

/// A row of the artists.
pub struct ArtistRow {
    pub key: Seq<char>,
    pub fetched_at: i64,
    pub name: Seq<char>,
    pub followers_total: i64,
    pub popularity: i64,
}

/// A row of the links: the artist in one row has a part in the track in another.
pub struct LinkRow {
    pub track_rowid: i64,
    pub artist_rowid: i64,
}

/// The catalogue: its tables, by row id where a row is ever referred to.
pub struct Catalogue {
    pub markets: Map<i64, Seq<char>>,
    pub albums: Map<i64, AlbumRow>,
    pub images: Seq<ImageRow>,
    pub tracks: Map<i64, TrackRow>,
    pub artists: Map<i64, ArtistRow>,
    pub links: Seq<LinkRow>,
}

/// The row that an album is entered as.
pub open spec fn album_row(album: AlbumView, release_date: Seq<char>, now: i64) -> AlbumRow {
    AlbumRow {
        key: album_key(album),
        fetched_at: now,
        name: album.name,
        album_type: ALBUM_TYPE@,
        available_markets_rowid: MARKETS_ROWID,
        label: UNKNOWN_LABEL@,
        popularity: 0,
        release_date,
        release_date_precision: DATE_PRECISION@,
        total_tracks: 0,
    }
}

/// The row that a picture is entered as.
pub open spec fn image_row(image: ImageView, album_rowid: i64) -> ImageRow {
    ImageRow {
        album_rowid,
        width: stored_size(image.width),
        height: stored_size(image.height),
        url: image.url,
    }
}

/// The row that a track is entered as.
pub open spec fn track_row(track: TrackView, now: i64, album_rowid: i64) -> TrackRow {
    TrackRow {
        key: track_key(track),
        fetched_at: now,
        name: track.name,
        preview_url: track.preview_url,
        album_rowid,
        track_number: track.track_number as i64,
        isrc: external_id_in(track.external_ids, ISRC@),
        popularity: 0,
        available_markets_rowid: MARKETS_ROWID,
        disc_number: track.disc_number as i64,
        duration_ms: track.duration_ms,
        explicit: track.explicit,
    }
}

/// The row that an artist is entered as.
pub open spec fn artist_row(artist: ArtistView, now: i64) -> ArtistRow {
    ArtistRow {
        key: artist_key(artist),
        fetched_at: now,
        name: artist.name,
        followers_total: 0,
        popularity: 0,
    }
}

/// The markets once their row has been made sure of: one that is there stays as it is.
pub open spec fn with_markets(markets: Map<i64, Seq<char>>) -> Map<i64, Seq<char>> {
    if markets.contains_key(MARKETS_ROWID) {
        markets
    } else {
        markets.insert(MARKETS_ROWID, ALL_MARKETS@)
    }
}

/// An album has been entered. One without a release date is not: the table demands a
/// date, and the statement passes over a row that the table refuses.
pub open spec fn album_added(
    before: Map<i64, AlbumRow>,
    after: Map<i64, AlbumRow>,
    album: AlbumView,
    now: i64,
) -> bool {
    match album.release_date {
        Some(date) => row_added(before, after, album_row(album, date, now)),
        None => after == before,
    }
}

/// A text that is bound, or nothing where a null is.
pub open spec fn text_or_null(value: ParamView) -> Option<Seq<char>> {
    match value {
        ParamView::Text(text) => Some(text),
        _ => None,
    }
}

/// A text or a null is bound.
pub open spec fn is_text_or_null(value: ParamView) -> bool {
    value is Text || value is Null
}

/// What a statement that goes through does to the catalogue, read off its text and off
/// the values bound to it. Each value goes into the column whose question mark it stands
/// for. Any other statement leaves the catalogue as it is.
pub open spec fn catalogue_effect(s: StatementView, before: Catalogue, after: Catalogue) -> bool {
    let v = s.params;
    if s.sql == INSERT_MARKETS@ && v.len() == 0 {
        // (rowid, available_markets) VALUES (1, 'ALL')
        after == (Catalogue { markets: with_markets(before.markets), ..before })
    } else if s.sql == INSERT_ALBUM@ && v.len() == 8 && v[0] is Text && v[1] is Int && v[2] is Text
        && v[3] is Text && v[4] is Int && is_text_or_null(v[5]) && v[6] is Text && v[7] is Int {
        // (id, fetched_at, name, album_type, available_markets_rowid, label, popularity,
        // release_date, release_date_precision, total_tracks)
        // VALUES (?, ?, ?, ?, 1, 'Unknown', ?, ?, ?, ?)
        &&& match text_or_null(v[5]) {
            Some(release_date) => row_added(
                before.albums,
                after.albums,
                AlbumRow {
                    key: v[0]->Text_0,
                    fetched_at: v[1]->Int_0,
                    name: v[2]->Text_0,
                    album_type: v[3]->Text_0,
                    available_markets_rowid: MARKETS_ROWID,
                    label: UNKNOWN_LABEL@,
                    popularity: v[4]->Int_0,
                    release_date,
                    release_date_precision: v[6]->Text_0,
                    total_tracks: v[7]->Int_0,
                },
            ),
            None => after.albums == before.albums,
        }
        &&& after == (Catalogue { albums: after.albums, ..before })
    } else if s.sql == INSERT_IMAGE@ && v.len() == 4 && v[0] is Int && v[1] is Int && v[2] is Int
        && v[3] is Text {
        // (album_rowid, width, height, url) VALUES (?, ?, ?, ?)
        let row = ImageRow {
            album_rowid: v[0]->Int_0,
            width: v[1]->Int_0,
            height: v[2]->Int_0,
            url: v[3]->Text_0,
        };
        after == (Catalogue { images: before.images.push(row), ..before })
    } else if s.sql == INSERT_TRACK@ && v.len() == 11 && v[0] is Text && v[1] is Int
        && v[2] is Text && is_text_or_null(v[3]) && v[4] is Int && v[5] is Int
        && is_text_or_null(v[6]) && v[7] is Int && v[8] is Int && v[9] is Int && v[10] is Bool {
        // (id, fetched_at, name, preview_url, album_rowid, track_number, external_id_isrc,
        // popularity, available_markets_rowid, disc_number, duration_ms, explicit)
        // VALUES (?, ?, ?, ?, ?, ?, ?, ?, 1, ?, ?, ?)
        let row = TrackRow {
            key: v[0]->Text_0,
            fetched_at: v[1]->Int_0,
            name: v[2]->Text_0,
            preview_url: text_or_null(v[3]),
            album_rowid: v[4]->Int_0,
            track_number: v[5]->Int_0,
            isrc: text_or_null(v[6]),
            popularity: v[7]->Int_0,
            available_markets_rowid: MARKETS_ROWID,
            disc_number: v[8]->Int_0,
            duration_ms: v[9]->Int_0,
            explicit: v[10]->Bool_0,
        };
        &&& row_added(before.tracks, after.tracks, row)
        &&& after == (Catalogue { tracks: after.tracks, ..before })
    } else if s.sql == INSERT_ARTIST@ && v.len() == 3 && v[0] is Text && v[1] is Int
        && v[2] is Text {
        // (id, fetched_at, name, followers_total, popularity) VALUES (?, ?, ?, 0, 0)
        let row = ArtistRow {
            key: v[0]->Text_0,
            fetched_at: v[1]->Int_0,
            name: v[2]->Text_0,
            followers_total: 0,
            popularity: 0,
        };
        &&& row_added(before.artists, after.artists, row)
        &&& after == (Catalogue { artists: after.artists, ..before })
    } else if s.sql == LINK_ARTIST@ && v.len() == 2 && v[0] is Int && v[1] is Int {
        // (track_rowid, artist_rowid) VALUES (?, ?)
        let row = LinkRow { track_rowid: v[0]->Int_0, artist_rowid: v[1]->Int_0 };
        after == (Catalogue { links: before.links.push(row), ..before })
    } else {
        after == before
    }
}

/// What a statement that reads a row id answers, read off its text and off the value bound
/// to it: a row that has that value as its key. Which of several it is stays open. Of any
/// other statement nothing is known.
pub open spec fn finds_row(s: StatementView, c: Catalogue, rowid: i64) -> bool {
    let v = s.params;
    if s.sql == SELECT_ALBUM@ && v.len() == 1 && v[0] is Text {
        c.albums.contains_key(rowid) && c.albums[rowid].key == v[0]->Text_0
    } else if s.sql == SELECT_TRACK@ && v.len() == 1 && v[0] is Text {
        c.tracks.contains_key(rowid) && c.tracks[rowid].key == v[0]->Text_0
    } else if s.sql == SELECT_ARTIST@ && v.len() == 1 && v[0] is Text {
        c.artists.contains_key(rowid) && c.artists[rowid].key == v[0]->Text_0
    } else {
        true
    }
}

/// What a request that is granted does to the catalogue. `read` is the row id that the
/// reply brings.
pub open spec fn request_effect(
    request: RequestView,
    read: Option<i64>,
    before: Catalogue,
    after: Catalogue,
) -> bool {
    match request {
        RequestView::Execute(s) => catalogue_effect(s, before, after),
        RequestView::FetchRowid(s) => {
            &&& read is Some
            &&& finds_row(s, before, read->0)
            &&& after == before
        },
        _ => after == before,
    }
}

/// What granting the request of a stage does to the catalogue. A row that is found has
/// the key that was asked for; which of several it is stays open. `read` is its row id.
pub open spec fn stage_effect(
    track: TrackView,
    stage: Stage,
    read: Option<i64>,
    before: Catalogue,
    after: Catalogue,
) -> bool {
    match stage {
        Stage::Markets { .. } => {
            after == (Catalogue { markets: with_markets(before.markets), ..before })
        },
        Stage::Album { now } => {
            &&& album_added(before.albums, after.albums, track.album, now)
            &&& after == (Catalogue { albums: after.albums, ..before })
        },
        Stage::AlbumRowid { .. } => {
            &&& read is Some
            &&& before.albums.contains_key(read->0)
            &&& before.albums[read->0].key == album_key(track.album)
            &&& after == before
        },
        Stage::Image { album_rowid, index, .. } => {
            let row = image_row(track.album.images[index as int], album_rowid);
            after == (Catalogue { images: before.images.push(row), ..before })
        },
        Stage::Track { now, album_rowid } => {
            &&& row_added(before.tracks, after.tracks, track_row(track, now, album_rowid))
            &&& after == (Catalogue { tracks: after.tracks, ..before })
        },
        Stage::TrackRowid { .. } => {
            &&& read is Some
            &&& before.tracks.contains_key(read->0)
            &&& before.tracks[read->0].key == track_key(track)
            &&& after == before
        },
        Stage::Artist { now, index, .. } => {
            let row = artist_row(track.artists[index as int], now);
            &&& row_added(before.artists, after.artists, row)
            &&& after == (Catalogue { artists: after.artists, ..before })
        },
        Stage::ArtistRowid { index, .. } => {
            &&& read is Some
            &&& before.artists.contains_key(read->0)
            &&& before.artists[read->0].key == artist_key(track.artists[index as int])
            &&& after == before
        },
        Stage::Link { track_rowid, artist_rowid, .. } => {
            let row = LinkRow { track_rowid, artist_rowid };
            after == (Catalogue { links: before.links.push(row), ..before })
        },
        _ => after == before,
    }
}

/// The step `k` of a run without a failure takes the catalogue from one of `states` to
/// the next.
pub open spec fn step_effect(
    track: TrackView,
    now: i64,
    rowids: Rowids,
    states: Seq<Catalogue>,
    k: int,
) -> bool {
    let stage = granted_run(track, now, rowids, k as nat);
    let request = stage_request(track, stage);
    &&& request is Some
    &&& request_effect(request->0, read_at(stage, rowids), states[k], states[k + 1])
}

/// The catalogue passes through `states` while a track is entered without a failure.
pub open spec fn enters(
    track: TrackView,
    now: i64,
    rowids: Rowids,
    states: Seq<Catalogue>,
) -> bool {
    &&& states.len() == script(track, now, rowids).len() + 1
    &&& rowids.artists.len() == track.artists.len()
    &&& forall|k: int|
        0 <= k < states.len() - 1 ==> #[trigger] step_effect(track, now, rowids, states, k)
}

/// Inside the transaction the catalogue passes through `states` while the replies
/// arrive, whatever they are: a request that is granted has its effect, and nothing
/// else has any. What others write meanwhile is not seen there.
pub open spec fn saving_passes<E>(
    track: TrackView,
    replies: Seq<(ReplyView<E>, i64)>,
    states: Seq<Catalogue>,
) -> bool
    decreases replies.len(),
{
    if replies.len() == 0 {
        states.len() == 1
    } else {
        let request = saving_request(saving_run(track, replies.drop_last()));
        let reply = replies.last().0;
        let (before, after) = (states[replies.len() - 1], states[replies.len() as int]);
        &&& states.len() == replies.len() + 1
        &&& saving_passes(track, replies.drop_last(), states.drop_last())
        &&& if request is Some && grants(request->0, reply) {
            request_effect(request->0, read_in(reply), before, after)
        } else {
            after == before
        }
    }
}

/// What the transaction leaves of the catalogue when it is over or dropped: what the
/// catalogue has come to where the transaction is committed, what it was before
/// otherwise.
pub open spec fn catalogue_left<E>(
    track: TrackView,
    replies: Seq<(ReplyView<E>, i64)>,
    states: Seq<Catalogue>,
) -> Catalogue {
    if saving_run(track, replies).stage == Stage::Saved {
        states.last()
    } else {
        states[0]
    }
}

/// The rows of a track's artists.
pub open spec fn artist_rows(artists: Seq<ArtistView>, now: i64) -> Seq<ArtistRow> {
    artists.map_values(|artist: ArtistView| artist_row(artist, now))
}

/// The row ids of the tracks that are stored under a key.
pub open spec fn tracks_with(tracks: Map<i64, TrackRow>, key: Seq<char>) -> Set<i64> {
    tracks.dom().filter(|rowid: i64| tracks[rowid].key == key)
}

/// The row ids of the albums that are stored under a key.
pub open spec fn albums_with(albums: Map<i64, AlbumRow>, key: Seq<char>) -> Set<i64> {
    albums.dom().filter(|rowid: i64| albums[rowid].key == key)
}

/// The rows of an album's pictures.
pub open spec fn image_rows(images: Seq<ImageView>, album_rowid: i64) -> Seq<ImageRow> {
    images.map_values(|image: ImageView| image_row(image, album_rowid))
}

/// The rows that link artists to a track.
pub open spec fn link_rows(track_rowid: i64, artist_rowids: Seq<i64>) -> Seq<LinkRow> {
    artist_rowids.map_values(|artist_rowid: i64| LinkRow { track_rowid, artist_rowid })
}

/// A picture in a track's document.
pub struct ImageDocument {
    pub url: Seq<char>,
    pub width: i64,
    pub height: i64,
}

/// An artist in a track's document.
pub struct ArtistDocument {
    pub id: Seq<char>,
    pub name: Seq<char>,
}

/// The album in a track's document. The pictures come in no order.
pub struct AlbumDocument {
    pub id: Seq<char>,
    pub name: Seq<char>,
    pub album_type: Seq<char>,
    pub release_date: Seq<char>,
    pub release_date_precision: Seq<char>,
    pub total_tracks: i64,
    pub images: Multiset<ImageDocument>,
}

/// A track's document. The artists come in no order.
pub struct Document {
    pub id: Seq<char>,
    pub name: Seq<char>,
    pub popularity: i64,
    pub track_number: i64,
    pub disc_number: i64,
    pub duration_ms: i64,
    pub explicit: bool,
    pub preview_url: Option<Seq<char>>,
    pub isrc: Option<Seq<char>>,
    pub album: Option<AlbumDocument>,
    pub artists: Multiset<ArtistDocument>,
}

/// The pictures of the album in a row.
pub open spec fn images_of(images: Seq<ImageRow>, album_rowid: i64) -> Seq<ImageDocument> {
    images.filter(|row: ImageRow| row.album_rowid == album_rowid).map_values(
        |row: ImageRow| ImageDocument { url: row.url, width: row.width, height: row.height },
    )
}

/// The document of the album in a row.
pub open spec fn album_document(c: Catalogue, rowid: i64) -> AlbumDocument {
    let row = c.albums[rowid];
    AlbumDocument {
        id: row.key,
        name: row.name,
        album_type: row.album_type,
        release_date: row.release_date,
        release_date_precision: row.release_date_precision,
        total_tracks: row.total_tracks,
        images: images_of(c.images, rowid).to_multiset(),
    }
}

/// The artists of the track in a row.
pub open spec fn artists_of(c: Catalogue, track_rowid: i64) -> Seq<ArtistDocument> {
    c.links.filter(
        |row: LinkRow| row.track_rowid == track_rowid && c.artists.contains_key(row.artist_rowid),
    ).map_values(
        |row: LinkRow|
            ArtistDocument {
                id: c.artists[row.artist_rowid].key,
                name: c.artists[row.artist_rowid].name,
            },
    )
}

/// The document of the track in a row.
pub open spec fn document(c: Catalogue, rowid: i64) -> Document {
    let row = c.tracks[rowid];
    Document {
        id: row.key,
        name: row.name,
        popularity: row.popularity,
        track_number: row.track_number,
        disc_number: row.disc_number,
        duration_ms: row.duration_ms,
        explicit: row.explicit,
        preview_url: row.preview_url,
        isrc: row.isrc,
        album: if c.albums.contains_key(row.album_rowid) {
            Some(album_document(c, row.album_rowid))
        } else {
            None
        },
        artists: artists_of(c, rowid).to_multiset(),
    }
}

/// The tables that this model is of, as the text that creates them: each only where it is
/// missing. A track has one entry in the queue, and an album has a release date.
pub open spec fn tables_text() -> Seq<char> {
    "
CREATE TABLE IF NOT EXISTS `available_markets` (
  `rowid` integer PRIMARY KEY NOT NULL,
  `available_markets` text NOT NULL
);

CREATE TABLE IF NOT EXISTS `artists` (
  `rowid` integer PRIMARY KEY NOT NULL,
  `id` text NOT NULL,
  `fetched_at` integer NOT NULL,
  `name` text NOT NULL,
  `followers_total` integer NOT NULL,
  `popularity` integer NOT NULL
);

CREATE TABLE IF NOT EXISTS `albums` (
  `rowid` integer PRIMARY KEY NOT NULL,
  `id` text NOT NULL,
  `fetched_at` integer NOT NULL,
  `name` text NOT NULL,
  `album_type` text NOT NULL,
  `available_markets_rowid` integer NOT NULL,
  `external_id_upc` text,
  `copyright_c` text,
  `copyright_p` text,
  `label` text NOT NULL,
  `popularity` integer NOT NULL,
  `release_date` text NOT NULL,
  `release_date_precision` text NOT NULL,
  `total_tracks` integer NOT NULL,
  `external_id_ean` text,
  FOREIGN KEY (`available_markets_rowid`) REFERENCES `available_markets`(`rowid`)
);

CREATE TABLE IF NOT EXISTS `tracks` (
  `rowid` integer PRIMARY KEY NOT NULL,
  `id` text NOT NULL,
  `fetched_at` integer NOT NULL,
  `name` text NOT NULL,
  `preview_url` text,
  `album_rowid` integer NOT NULL,
  `track_number` integer NOT NULL,
  `external_id_isrc` text,
  `popularity` integer NOT NULL,
  `available_markets_rowid` integer NOT NULL,
  `disc_number` integer NOT NULL,
  `duration_ms` integer NOT NULL,
  `explicit` integer NOT NULL,
  FOREIGN KEY (`available_markets_rowid`) REFERENCES `available_markets`(`rowid`)
);

CREATE TABLE IF NOT EXISTS `track_artists` (
  `track_rowid` integer NOT NULL,
  `artist_rowid` integer NOT NULL,
  FOREIGN KEY (`track_rowid`) REFERENCES `tracks`(`rowid`),
  FOREIGN KEY (`artist_rowid`) REFERENCES `artists`(`rowid`)
);

CREATE TABLE IF NOT EXISTS `album_images` (
  `album_rowid` integer NOT NULL,
  `width` integer NOT NULL,
  `height` integer NOT NULL,
  `url` text NOT NULL,
  FOREIGN KEY (`album_rowid`) REFERENCES `albums`(`rowid`)
);

CREATE TABLE IF NOT EXISTS `missing_tracks_queue` (
    `rowid` integer PRIMARY KEY NOT NULL,
    `track_id` text NOT NULL,
    `enqueued_at` integer NOT NULL,
    `status` text NOT NULL,
    `attempts` integer NOT NULL DEFAULT 0,
    `last_attempt_at` integer
);

-- Indices for performance
CREATE INDEX IF NOT EXISTS `tracks_id_unique` ON `tracks` (`id`);
CREATE INDEX IF NOT EXISTS `tracks_isrc` ON `tracks` (`external_id_isrc`);
CREATE INDEX IF NOT EXISTS `track_artists_track_id` ON `track_artists` (`track_rowid`);
CREATE INDEX IF NOT EXISTS `album_images_album_id` ON `album_images` (`album_rowid`);
CREATE UNIQUE INDEX IF NOT EXISTS `missing_tracks_queue_track_id_unique` ON `missing_tracks_queue` (`track_id`);
CREATE INDEX IF NOT EXISTS `missing_tracks_queue_status_rowid` ON `missing_tracks_queue` (`status`, `rowid`);
"@
}

/// The text whose answer this model gives: it makes `document` of one track whose key lies
/// between the two values bound.
pub open spec fn lookup_text() -> Seq<char> {
    "
    SELECT json_object(
        'id', t.id,
        'name', t.name,
        'popularity', t.popularity,
        'track_number', t.track_number,
        'disc_number', t.disc_number,
        'duration_ms', t.duration_ms,
        'explicit', CASE WHEN t.explicit = 1 THEN json('true') ELSE json('false') END,
        'preview_url', t.preview_url,
        'external_ids', json_object('isrc', t.external_id_isrc),
        'album', (
            SELECT json_object(
                'id', al.id,
                'name', al.name,
                'album_type', al.album_type,
                'release_date', al.release_date,
                'release_date_precision', al.release_date_precision,
                'total_tracks', al.total_tracks,
                'images', (
                    SELECT json_group_array(json_object(
                        'url', img.url, 'width', img.width, 'height', img.height
                    )) FROM album_images img WHERE img.album_rowid = al.rowid
                )
            ) FROM albums al WHERE al.rowid = t.album_rowid
        ),
        'artists', (
            SELECT json_group_array(json_object(
                'id', art.id,
                'name', art.name
            )) FROM artists art
            JOIN track_artists ta ON art.rowid = ta.artist_rowid
            WHERE ta.track_rowid = t.rowid
        )
    ) as spotify_data
    FROM tracks t
    WHERE t.id >= ? AND t.id < ?
    LIMIT 1
"@
}

/// A lookup statement asks for this key, read off its text and off the two values bound
/// to it: the key is at or behind the first value and in front of the second.
pub open spec fn asks_for(s: StatementView, key: Seq<char>) -> bool {
    // WHERE t.id >= ? AND t.id < ?
    !precedes(key, s.params[0]->Text_0) && precedes(key, s.params[1]->Text_0)
}

/// What a lookup statement answers: the document of one of the tracks that it asks for, or
/// nothing where it asks for none that is there. Of any other statement nothing is known.
pub open spec fn lookup_answers(c: Catalogue, s: StatementView, answer: Option<Document>) -> bool {
    s.sql == lookup_text() && s.params.len() == 2 && s.params[0] is Text
        && s.params[1] is Text ==> match answer {
        Some(found) => exists|rowid: i64| #[trigger]
            c.tracks.contains_key(rowid) && asks_for(s, c.tracks[rowid].key) && found == document(
                c,
                rowid,
            ),
        None => forall|rowid: i64| #[trigger]
            c.tracks.contains_key(rowid) ==> !asks_for(s, c.tracks[rowid].key),
    }
}

/// The pictures as they stand in a document.
pub open spec fn image_documents(images: Seq<ImageView>) -> Seq<ImageDocument> {
    images.map_values(
        |image: ImageView|
            ImageDocument {
                url: image.url,
                width: stored_size(image.width),
                height: stored_size(image.height),
            },
    )
}

/// The artists as they stand in a document.
pub open spec fn artist_documents(artists: Seq<ArtistView>) -> Seq<ArtistDocument> {
    artists.map_values(
        |artist: ArtistView| ArtistDocument { id: artist_key(artist), name: artist.name },
    )
}

/// The document that a track has once it is entered for the first time, with an album
/// that has a release date.
pub open spec fn document_of(track: TrackView, release_date: Seq<char>) -> Document {
    Document {
        id: track_key(track),
        name: track.name,
        popularity: 0,
        track_number: track.track_number as i64,
        disc_number: track.disc_number as i64,
        duration_ms: track.duration_ms,
        explicit: track.explicit,
        preview_url: track.preview_url,
        isrc: external_id_in(track.external_ids, ISRC@),
        album: Some(
            AlbumDocument {
                id: album_key(track.album),
                name: track.album.name,
                album_type: ALBUM_TYPE@,
                release_date,
                release_date_precision: DATE_PRECISION@,
                total_tracks: 0,
                images: image_documents(track.album.images).to_multiset(),
            },
        ),
        artists: artist_documents(track.artists).to_multiset(),
    }
}

/// Every picture belongs to an album that is there, every link to a track and an artist
/// that are there, and every album and every track has its markets.
pub open spec fn references_hold(c: Catalogue) -> bool {
    &&& forall|i: int|
        0 <= i < c.images.len() ==> c.albums.contains_key((#[trigger] c.images[i]).album_rowid)
    &&& forall|i: int|
        0 <= i < c.links.len() ==> c.tracks.contains_key((#[trigger] c.links[i]).track_rowid)
            && c.artists.contains_key(c.links[i].artist_rowid)
    &&& forall|rowid: i64| #[trigger]
        c.albums.contains_key(rowid) ==> c.markets.contains_key(
            c.albums[rowid].available_markets_rowid,
        )
    &&& forall|rowid: i64| #[trigger]
        c.tracks.contains_key(rowid) ==> c.markets.contains_key(
            c.tracks[rowid].available_markets_rowid,
        )
}

/// The track itself is not in the catalogue yet; its album and its artists may be.
pub open spec fn is_new(c: Catalogue, track: TrackView) -> bool {
    forall|rowid: i64| #[trigger]
        c.tracks.contains_key(rowid) ==> c.tracks[rowid].key != track_key(track)
}

/// Nothing of the track is in the catalogue yet: neither it nor its album nor any of
/// its artists, and no two of its artists share a key.
pub open spec fn all_new(c: Catalogue, track: TrackView) -> bool {
    &&& is_new(c, track)
    &&& forall|rowid: i64| #[trigger]
        c.albums.contains_key(rowid) ==> c.albums[rowid].key != album_key(track.album)
    &&& forall|rowid: i64, i: int|
        #![trigger c.artists.contains_key(rowid), track.artists[i]]
        c.artists.contains_key(rowid) && 0 <= i < track.artists.len() ==> c.artists[rowid].key
            != artist_key(track.artists[i])
    &&& forall|i: int, j: int|
        #![trigger track.artists[i], track.artists[j]]
        0 <= i < track.artists.len() && 0 <= j < track.artists.len() && artist_key(
            track.artists[i],
        ) == artist_key(track.artists[j]) ==> i == j
}

} // verus!
