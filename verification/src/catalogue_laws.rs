//! What entering a track does to the catalogue, and what can be read back of it, if
//! SQLite behaves as the model in [`catalogue_model`](crate::catalogue_model) says.

use vstd::prelude::*;

verus! {

use crate::catalog::{ArtistView, ImageView, TrackView};
use crate::catalog_sql::{
    album_key,
    artist_key,
    link_statement,
    track_key,
    INSERT_ALBUM,
    INSERT_ARTIST,
    INSERT_IMAGE,
    INSERT_MARKETS,
    INSERT_TRACK,
    LINK_ARTIST,
    SELECT_ALBUM,
    SELECT_ARTIST,
    SELECT_TRACK,
};
use crate::catalogue_model::{
    album_added,
    album_document,
    album_row,
    albums_with,
    all_new,
    artist_documents,
    artist_row,
    artist_rows,
    artists_of,
    asks_for,
    catalogue_effect,
    catalogue_left,
    document,
    document_of,
    enters,
    image_documents,
    image_rows,
    images_of,
    is_new,
    link_rows,
    lookup_answers,
    references_hold,
    request_effect,
    saving_passes,
    stage_effect,
    step_effect,
    track_row,
    tracks_with,
    with_markets,
    AlbumRow,
    ArtistDocument,
    ArtistRow,
    Catalogue,
    Document,
    ImageDocument,
    ImageRow,
    LinkRow,
    TrackRow,
    ALL_MARKETS,
    MARKETS_ROWID,
};
use crate::resolve::lookup_statement;
use crate::resolve_laws::reaches;
use crate::save::{is_over, saving_request, stage_fits, stage_request, Stage};
use crate::save_laws::{
    granted_requests,
    law_granted_save_goes_on,
    lemma_granted_run,
    lemma_run_follows,
    lemma_saving_run,
    lemma_step_on,
    lemma_time_is_that_of_the_opening,
    lists_fit,
    opens_at,
    read_at,
    read_by,
    read_in,
    saving_run,
    script,
    stage_after_all,
    stage_at,
    Rowids,
};
use crate::sql::ReplyView;
use crate::tables::{
    grants,
    is_next_rowid,
    lemma_row_added,
    lemma_rows_added,
    row_added,
    rows_added,
};

/// How long the texts of the statements on the catalogue are, and where two of one length
/// differ.
pub proof fn lemma_catalogue_texts()
    ensures
        INSERT_MARKETS@.len() == 84,
        INSERT_ALBUM@.len() == 215,
        INSERT_IMAGE@.len() == 78,
        INSERT_TRACK@.len() == 235,
        INSERT_ARTIST@.len() == 104,
        LINK_ARTIST@.len() == 77,
        SELECT_ALBUM@.len() == 37,
        SELECT_TRACK@.len() == 37,
        SELECT_ARTIST@.len() == 38,
        SELECT_ALBUM@[18] == 'a',
        SELECT_TRACK@[18] == 't',
{
    reveal_strlit(
        "INSERT OR IGNORE INTO available_markets (rowid, available_markets) VALUES (1, 'ALL')",
    );
    reveal_strlit(
        "INSERT OR IGNORE INTO albums (id, fetched_at, name, album_type, available_markets_rowid, label, popularity, release_date, release_date_precision, total_tracks) 
         VALUES (?, ?, ?, ?, 1, 'Unknown', ?, ?, ?, ?)",
    );
    reveal_strlit("INSERT INTO album_images (album_rowid, width, height, url) VALUES (?, ?, ?, ?)");
    reveal_strlit(
        "INSERT OR IGNORE INTO tracks (id, fetched_at, name, preview_url, album_rowid, track_number, external_id_isrc, popularity, available_markets_rowid, disc_number, duration_ms, explicit)
         VALUES (?, ?, ?, ?, ?, ?, ?, ?, 1, ?, ?, ?)",
    );
    reveal_strlit(
        "INSERT OR IGNORE INTO artists (id, fetched_at, name, followers_total, popularity) VALUES (?, ?, ?, 0, 0)",
    );
    reveal_strlit(
        "INSERT OR IGNORE INTO track_artists (track_rowid, artist_rowid) VALUES (?, ?)",
    );
    reveal_strlit("SELECT rowid FROM albums WHERE id = ?");
    reveal_strlit("SELECT rowid FROM tracks WHERE id = ?");
    reveal_strlit("SELECT rowid FROM artists WHERE id = ?");
}

/// Every request of the transaction has, by its text and its values, exactly the effect
/// that its stage is there for.
pub proof fn law_requests_do_what_their_stages_are_for(
    track: TrackView,
    stage: Stage,
    read: Option<i64>,
    before: Catalogue,
    after: Catalogue,
)
    requires
        stage_fits(track, stage),
        !is_over(stage),
    ensures
        stage_request(track, stage) is Some,
        request_effect(stage_request(track, stage)->0, read, before, after) <==> stage_effect(
            track,
            stage,
            read,
            before,
            after,
        ),
{
    lemma_catalogue_texts();
}

spec fn clamp(x: int, top: int) -> int {
    if x < 0 {
        0
    } else if x > top {
        top
    } else {
        x
    }
}

spec fn entered_so_far(
    track: TrackView,
    now: i64,
    rowids: Rowids,
    first: Catalogue,
    c: Catalogue,
    k: int,
) -> bool {
    let images = track.album.images.len() as int;
    let artists = track.artists.len() as int;
    let behind = k - 6 - images;
    &&& c.markets == if k <= 1 {
        first.markets
    } else {
        with_markets(first.markets)
    }
    &&& if k <= 2 {
        c.albums == first.albums
    } else {
        album_added(first.albums, c.albums, track.album, now)
    }
    &&& k >= 4 ==> c.albums.contains_key(rowids.album) && c.albums[rowids.album].key == album_key(
        track.album,
    )
    &&& c.images == first.images + image_rows(track.album.images, rowids.album).take(
        clamp(k - 4, images),
    )
    &&& if k <= 4 + images {
        c.tracks == first.tracks
    } else {
        row_added(first.tracks, c.tracks, track_row(track, now, rowids.album))
    }
    &&& k >= 6 + images ==> c.tracks.contains_key(rowids.track) && c.tracks[rowids.track].key
        == track_key(track)
    &&& rows_added(
        first.artists,
        c.artists,
        artist_rows(track.artists, now).take(clamp((behind + 2) / 3, artists)),
    )
    &&& forall|i: int|
        0 <= i < artists && 3 * i + 2 <= behind ==> c.artists.contains_key(
            #[trigger] rowids.artists[i],
        ) && c.artists[rowids.artists[i]].key == artist_key(track.artists[i])
    &&& c.links == first.links + link_rows(rowids.track, rowids.artists).take(
        clamp(behind / 3, artists),
    )
}

#[verifier::spinoff_prover]
proof fn lemma_one_more_step(
    track: TrackView,
    now: i64,
    rowids: Rowids,
    first: Catalogue,
    before: Catalogue,
    after: Catalogue,
    k: int,
)
    requires
        lists_fit(track),
        rowids.artists.len() == track.artists.len(),
        0 <= k < script(track, now, rowids).len(),
        entered_so_far(track, now, rowids, first, before, k),
        ({
            let stage = stage_at(track, now, rowids, k);
            stage_effect(track, stage, read_at(stage, rowids), before, after)
        }),
    ensures
        entered_so_far(track, now, rowids, first, after, k + 1),
{
    let images = track.album.images.len() as int;
    let artists = track.artists.len() as int;
    let behind = k - 6 - images;
    let pictures = image_rows(track.album.images, rowids.album);
    let links = link_rows(rowids.track, rowids.artists);
    match stage_at(track, now, rowids, k) {
        Stage::Image { .. } => {
            assert(pictures.take(k - 3) =~= pictures.take(k - 4).push(pictures[k - 4]));
            assert(after.images =~= first.images + pictures.take(k - 3));
        },
        Stage::Artist { now: _, index, .. } => {
            let rows = artist_rows(track.artists, now);
            let i = index as int;
            assert(rows.take(i + 1).drop_last() =~= rows.take(i));
            assert(rows.take(i + 1).last() == artist_row(track.artists[i], now));
            lemma_row_added(before.artists, after.artists, artist_row(track.artists[i], now));
            assert forall|i: int|
                0 <= i < artists && 3 * i + 2 <= behind + 1 implies after.artists.contains_key(
                #[trigger] rowids.artists[i],
            ) && after.artists[rowids.artists[i]].key == artist_key(track.artists[i]) by {
                assert(3 * i + 2 <= behind);
                assert(before.artists.contains_key(rowids.artists[i]));
            }
        },
        Stage::Link { .. } => {
            let i = behind / 3;
            assert(links.take(i + 1) =~= links.take(i).push(links[i]));
            assert(after.links =~= first.links + links.take(i + 1));
        },
        _ => {},
    }
}

proof fn lemma_entered(
    track: TrackView,
    now: i64,
    rowids: Rowids,
    states: Seq<Catalogue>,
    k: int,
)
    requires
        lists_fit(track),
        enters(track, now, rowids, states),
        0 <= k < states.len(),
    ensures
        entered_so_far(track, now, rowids, states[0], states[k], k),
    decreases k,
{
    if k == 0 {
        let first = states[0];
        assert(first.images =~= first.images + image_rows(track.album.images, rowids.album).take(
            0,
        ));
        assert(first.links =~= first.links + link_rows(rowids.track, rowids.artists).take(0));
        assert(artist_rows(track.artists, now).take(0).len() == 0);
    } else {
        lemma_entered(track, now, rowids, states, k - 1);
        lemma_granted_run(track, now, rowids, (k - 1) as nat);
        assert(step_effect(track, now, rowids, states, k - 1));
        let stage = stage_at(track, now, rowids, k - 1);
        law_requests_do_what_their_stages_are_for(
            track,
            stage,
            read_at(stage, rowids),
            states[k - 1],
            states[k],
        );
        lemma_one_more_step(track, now, rowids, states[0], states[k - 1], states[k], k - 1);
    }
}

/// Entering a track makes sure of the markets, and adds a row for the album, if it has a
/// release date, a row for the track, one row for each artist, and the pictures and the
/// links in their order; it takes nothing away and changes no row that was there. The
/// rows that it refers to have the keys of the album, of the track and of each artist.
pub proof fn law_entering_adds_the_track(
    track: TrackView,
    now: i64,
    rowids: Rowids,
    states: Seq<Catalogue>,
)
    requires
        lists_fit(track),
        enters(track, now, rowids, states),
    ensures
        states.last().markets == with_markets(states[0].markets),
        album_added(states[0].albums, states.last().albums, track.album, now),
        row_added(
            states[0].tracks,
            states.last().tracks,
            track_row(track, now, rowids.album),
        ),
        rows_added(
            states[0].artists,
            states.last().artists,
            artist_rows(track.artists, now),
        ),
        states.last().images == states[0].images + image_rows(track.album.images, rowids.album),
        states.last().links == states[0].links + link_rows(rowids.track, rowids.artists),
        states.last().albums.contains_key(rowids.album),
        states.last().albums[rowids.album].key == album_key(track.album),
        states.last().tracks.contains_key(rowids.track),
        states.last().tracks[rowids.track].key == track_key(track),
        forall|i: int|
            0 <= i < track.artists.len() ==> states.last().artists.contains_key(
                #[trigger] rowids.artists[i],
            ) && states.last().artists[rowids.artists[i]].key == artist_key(track.artists[i]),
{
    let end = states.len() - 1;
    lemma_entered(track, now, rowids, states, end);
    let pictures = image_rows(track.album.images, rowids.album);
    let links = link_rows(rowids.track, rowids.artists);
    let rows = artist_rows(track.artists, now);
    assert(pictures.take(pictures.len() as int) =~= pictures);
    assert(links.take(links.len() as int) =~= links);
    assert(rows.take(rows.len() as int) =~= rows);
}

/// Entering a track keeps every row of the artists, and each row that is new is that of
/// one of the track's artists; there are as many new rows as the track has artists.
pub proof fn law_each_artist_gets_one_row(
    track: TrackView,
    now: i64,
    rowids: Rowids,
    states: Seq<Catalogue>,
)
    requires
        lists_fit(track),
        enters(track, now, rowids, states),
    ensures
        states[0].artists.submap_of(states.last().artists),
        forall|rowid: i64| #[trigger]
            states.last().artists.contains_key(rowid) && !states[0].artists.contains_key(rowid)
                ==> exists|i: int|
                0 <= i < track.artists.len() && states.last().artists[rowid]
                    == #[trigger] artist_row(track.artists[i], now),
        states[0].artists.dom().finite() ==> states.last().artists.dom().finite()
            && states.last().artists.dom().len() == states[0].artists.dom().len()
            + track.artists.len(),
{
    law_entering_adds_the_track(track, now, rowids, states);
    let (first, c) = (states[0], states.last());
    let rows = artist_rows(track.artists, now);
    lemma_rows_added(first.artists, c.artists, rows);
    assert forall|rowid: i64| #[trigger]
        c.artists.contains_key(rowid) && !first.artists.contains_key(rowid) implies exists|i: int|
        0 <= i < track.artists.len() && c.artists[rowid] == #[trigger] artist_row(
            track.artists[i],
            now,
        ) by {
        let i = choose|i: int| 0 <= i < rows.len() && c.artists[rowid] == #[trigger] rows[i];
        assert(c.artists[rowid] == artist_row(track.artists[i], now));
    }
}

/// References that hold still hold once a track is entered.
pub proof fn law_references_keep_holding(
    track: TrackView,
    now: i64,
    rowids: Rowids,
    states: Seq<Catalogue>,
)
    requires
        lists_fit(track),
        enters(track, now, rowids, states),
        references_hold(states[0]),
    ensures
        references_hold(states.last()),
{
    law_entering_adds_the_track(track, now, rowids, states);
    law_each_artist_gets_one_row(track, now, rowids, states);
    let (first, c) = (states[0], states.last());
    assert forall|i: int| 0 <= i < c.images.len() implies c.albums.contains_key(
        (#[trigger] c.images[i]).album_rowid,
    ) by {
        if i < first.images.len() {
            assert(c.images[i] == first.images[i]);
        }
    }
    assert forall|i: int| 0 <= i < c.links.len() implies c.tracks.contains_key(
        (#[trigger] c.links[i]).track_rowid,
    ) && c.artists.contains_key(c.links[i].artist_rowid) by {
        if i < first.links.len() {
            assert(c.links[i] == first.links[i]);
            assert(first.artists.contains_key(first.links[i].artist_rowid));
        } else {
            let j = i - first.links.len();
            assert(c.links[i].artist_rowid == rowids.artists[j]);
        }
    }
    assert forall|rowid: i64| #[trigger]
        c.albums.contains_key(rowid) implies c.markets.contains_key(
        c.albums[rowid].available_markets_rowid,
    ) by {
        assert(first.albums.contains_key(rowid) ==> c.albums[rowid] == first.albums[rowid]);
    }
    assert forall|rowid: i64| #[trigger]
        c.tracks.contains_key(rowid) implies c.markets.contains_key(
        c.tracks[rowid].available_markets_rowid,
    ) by {
        assert(first.tracks.contains_key(rowid) ==> c.tracks[rowid] == first.tracks[rowid]);
    }
}

proof fn lemma_one_more_track(
    before: Map<i64, TrackRow>,
    after: Map<i64, TrackRow>,
    row: TrackRow,
) -> (rowid: i64)
    requires
        row_added(before, after, row),
    ensures
        !before.contains_key(rowid),
        after == before.insert(rowid, row),
        tracks_with(after, row.key) == tracks_with(before, row.key).insert(rowid),
{
    let rowid = choose|rowid: i64|
        is_next_rowid(before, rowid) && after == #[trigger] before.insert(rowid, row);
    assert(tracks_with(after, row.key) =~= tracks_with(before, row.key).insert(rowid));
    rowid
}

proof fn lemma_one_more_album(
    before: Map<i64, AlbumRow>,
    after: Map<i64, AlbumRow>,
    row: AlbumRow,
) -> (rowid: i64)
    requires
        row_added(before, after, row),
    ensures
        !before.contains_key(rowid),
        after == before.insert(rowid, row),
        albums_with(after, row.key) == albums_with(before, row.key).insert(rowid),
{
    let rowid = choose|rowid: i64|
        is_next_rowid(before, rowid) && after == #[trigger] before.insert(rowid, row);
    assert(albums_with(after, row.key) =~= albums_with(before, row.key).insert(rowid));
    rowid
}

/// Every time that a track is entered, one more row has its key; and one more row has
/// the key of its album, if that has a release date.
pub proof fn law_every_save_adds_one_row(
    track: TrackView,
    now: i64,
    rowids: Rowids,
    states: Seq<Catalogue>,
)
    requires
        lists_fit(track),
        enters(track, now, rowids, states),
    ensures
        exists|rowid: i64|
            !states[0].tracks.contains_key(rowid) && tracks_with(
                states.last().tracks,
                track_key(track),
            ) == #[trigger] tracks_with(states[0].tracks, track_key(track)).insert(rowid),
        track.album.release_date is Some ==> exists|rowid: i64|
            !states[0].albums.contains_key(rowid) && albums_with(
                states.last().albums,
                album_key(track.album),
            ) == #[trigger] albums_with(states[0].albums, album_key(track.album)).insert(rowid),
        track.album.release_date is None ==> states.last().albums == states[0].albums,
{
    law_entering_adds_the_track(track, now, rowids, states);
    let (first, c) = (states[0], states.last());
    let _ = lemma_one_more_track(first.tracks, c.tracks, track_row(track, now, rowids.album));
    if let Some(date) = track.album.release_date {
        let _ = lemma_one_more_album(first.albums, c.albums, album_row(track.album, date, now));
    }
}

/// A track that is entered a second time is there twice, and so are its album, the
/// album's pictures and the links: nothing is merged. The markets stay as they are.
pub proof fn law_second_save_doubles_the_track(
    track: TrackView,
    now: i64,
    rowids: Rowids,
    states: Seq<Catalogue>,
    later: i64,
    later_rowids: Rowids,
    later_states: Seq<Catalogue>,
)
    requires
        lists_fit(track),
        enters(track, now, rowids, states),
        enters(track, later, later_rowids, later_states),
        later_states[0] == states.last(),
        track.album.release_date is Some,
        tracks_with(states[0].tracks, track_key(track)) == Set::<i64>::empty(),
        albums_with(states[0].albums, album_key(track.album)) == Set::<i64>::empty(),
    ensures
        tracks_with(later_states.last().tracks, track_key(track)).finite(),
        tracks_with(later_states.last().tracks, track_key(track)).len() == 2,
        albums_with(later_states.last().albums, album_key(track.album)).finite(),
        albums_with(later_states.last().albums, album_key(track.album)).len() == 2,
        states.last().tracks.submap_of(later_states.last().tracks),
        states.last().albums.submap_of(later_states.last().albums),
        rows_added(
            states.last().artists,
            later_states.last().artists,
            artist_rows(track.artists, later),
        ),
        later_states.last().images == states[0].images + image_rows(
            track.album.images,
            rowids.album,
        ) + image_rows(track.album.images, later_rowids.album),
        later_states.last().links == states[0].links + link_rows(rowids.track, rowids.artists)
            + link_rows(later_rowids.track, later_rowids.artists),
        later_states.last().markets == states.last().markets,
        later_states.last().markets.contains_key(MARKETS_ROWID),
        states[0].markets == Map::<i64, Seq<char>>::empty() ==> later_states.last().markets
            == map![MARKETS_ROWID => ALL_MARKETS@],
{
    law_entering_adds_the_track(track, now, rowids, states);
    law_entering_adds_the_track(track, later, later_rowids, later_states);
    let (first, once, twice) = (states[0], states.last(), later_states.last());
    let date = track.album.release_date->0;
    let a = lemma_one_more_track(first.tracks, once.tracks, track_row(track, now, rowids.album));
    let b = lemma_one_more_track(
        once.tracks,
        twice.tracks,
        track_row(track, later, later_rowids.album),
    );
    assert(a != b);
    let c = lemma_one_more_album(first.albums, once.albums, album_row(track.album, date, now));
    let d = lemma_one_more_album(once.albums, twice.albums, album_row(track.album, date, later));
    assert(c != d);
}

proof fn lemma_filter_drops_all<A>(s: Seq<A>, pred: spec_fn(A) -> bool)
    requires
        forall|i: int| 0 <= i < s.len() ==> !pred(#[trigger] s[i]),
    ensures
        s.filter(pred) == Seq::<A>::empty(),
    decreases s.len(),
{
    reveal(Seq::filter);
    if s.len() > 0 {
        let rest = s.drop_last();
        assert forall|i: int| 0 <= i < rest.len() implies !pred(#[trigger] rest[i]) by {
            assert(rest[i] == s[i]);
        }
        lemma_filter_drops_all(rest, pred);
        assert(!pred(s[s.len() - 1]));
    }
}

proof fn lemma_filter_keeps_all<A>(s: Seq<A>, pred: spec_fn(A) -> bool)
    requires
        forall|i: int| 0 <= i < s.len() ==> pred(#[trigger] s[i]),
    ensures
        s.filter(pred) == s,
    decreases s.len(),
{
    reveal(Seq::filter);
    if s.len() > 0 {
        let rest = s.drop_last();
        assert forall|i: int| 0 <= i < rest.len() implies pred(#[trigger] rest[i]) by {
            assert(rest[i] == s[i]);
        }
        lemma_filter_keeps_all(rest, pred);
        assert(pred(s[s.len() - 1]));
        assert(rest.push(s.last()) =~= s);
    }
}

proof fn lemma_images_read_back(earlier: Seq<ImageRow>, images: Seq<ImageView>, album_rowid: i64)
    ensures
        images_of(earlier + image_rows(images, album_rowid), album_rowid) == images_of(
            earlier,
            album_rowid,
        ) + image_documents(images),
{
    let of_album = |row: ImageRow| row.album_rowid == album_rowid;
    let rows = image_rows(images, album_rowid);
    Seq::filter_distributes_over_add(earlier, rows, of_album);
    lemma_filter_keeps_all(rows, of_album);
    assert(images_of(earlier + rows, album_rowid) =~= images_of(earlier, album_rowid)
        + image_documents(images));
}

proof fn lemma_artists_read_back(
    c: Catalogue,
    earlier: Seq<LinkRow>,
    track_rowid: i64,
    rowids: Seq<i64>,
)
    requires
        forall|i: int|
            0 <= i < earlier.len() ==> (#[trigger] earlier[i]).track_rowid != track_rowid,
        c.links == earlier + link_rows(track_rowid, rowids),
        forall|i: int| 0 <= i < rowids.len() ==> c.artists.contains_key(#[trigger] rowids[i]),
    ensures
        artists_of(c, track_rowid) == rowids.map_values(
            |rowid: i64|
                ArtistDocument { id: c.artists[rowid].key, name: c.artists[rowid].name },
        ),
{
    let of_track = |row: LinkRow|
        row.track_rowid == track_rowid && c.artists.contains_key(row.artist_rowid);
    let rows = link_rows(track_rowid, rowids);
    assert forall|i: int| 0 <= i < rows.len() implies of_track(#[trigger] rows[i]) by {
        assert(c.artists.contains_key(rowids[i]));
    }
    Seq::filter_distributes_over_add(earlier, rows, of_track);
    lemma_filter_drops_all(earlier, of_track);
    lemma_filter_keeps_all(rows, of_track);
    assert(Seq::<LinkRow>::empty() + rows =~= rows);
    assert(artists_of(c, track_rowid) =~= rowids.map_values(
        |rowid: i64| ArtistDocument { id: c.artists[rowid].key, name: c.artists[rowid].name },
    ));
}

proof fn lemma_new_track_row(track: TrackView, now: i64, rowids: Rowids, states: Seq<Catalogue>)
    requires
        lists_fit(track),
        enters(track, now, rowids, states),
        is_new(states[0], track),
    ensures
        !states[0].tracks.contains_key(rowids.track),
        states.last().tracks.contains_key(rowids.track),
        states.last().tracks[rowids.track] == track_row(track, now, rowids.album),
{
    law_entering_adds_the_track(track, now, rowids, states);
    let (first, c) = (states[0], states.last());
    if first.tracks.contains_key(rowids.track) {
        assert(c.tracks[rowids.track] == first.tracks[rowids.track]);
    }
}

/// A track that is entered for the first time can be read back, whether its album and
/// its artists were known before or not. The document of its row has the track's id,
/// name, numbers, length and the rest; its album is the one with the album's key, and
/// has the track's pictures behind those that it had; its artists are those with the
/// artists' keys, one for each and in their order.
pub proof fn law_saved_track_reads_back(
    track: TrackView,
    now: i64,
    rowids: Rowids,
    states: Seq<Catalogue>,
)
    requires
        lists_fit(track),
        enters(track, now, rowids, states),
        references_hold(states[0]),
        is_new(states[0], track),
    ensures
        ({
            let c = states.last();
            let read = document(c, rowids.track);
            let wanted = document_of(track, album_document(c, rowids.album).release_date);
            &&& c.tracks.contains_key(rowids.track)
            &&& read == (Document { album: read.album, artists: read.artists, ..wanted })
            &&& read.album == Some(album_document(c, rowids.album))
            &&& album_document(c, rowids.album).id == album_key(track.album)
            &&& images_of(c.images, rowids.album) == images_of(states[0].images, rowids.album)
                + image_documents(track.album.images)
            &&& artists_of(c, rowids.track).map_values(|artist: ArtistDocument| artist.id)
                == track.artists.map_values(|artist: ArtistView| artist_key(artist))
        }),
{
    lemma_new_track_row(track, now, rowids, states);
    law_entering_adds_the_track(track, now, rowids, states);
    let (first, c) = (states[0], states.last());
    lemma_images_read_back(first.images, track.album.images, rowids.album);
    assert forall|i: int| 0 <= i < first.links.len() implies (
    #[trigger] first.links[i]).track_rowid != rowids.track by {
        assert(first.tracks.contains_key(first.links[i].track_rowid));
    }
    lemma_artists_read_back(c, first.links, rowids.track, rowids.artists);
    assert(artists_of(c, rowids.track).map_values(|artist: ArtistDocument| artist.id)
        =~= track.artists.map_values(|artist: ArtistView| artist_key(artist)));
}

proof fn lemma_new_artist_rows(
    track: TrackView,
    now: i64,
    rowids: Rowids,
    states: Seq<Catalogue>,
    i: int,
)
    requires
        lists_fit(track),
        enters(track, now, rowids, states),
        all_new(states[0], track),
        0 <= i < track.artists.len(),
    ensures
        states.last().artists.contains_key(rowids.artists[i]),
        states.last().artists[rowids.artists[i]] == artist_row(track.artists[i], now),
{
    law_entering_adds_the_track(track, now, rowids, states);
    law_each_artist_gets_one_row(track, now, rowids, states);
    let (first, c) = (states[0], states.last());
    let rowid = rowids.artists[i];
    assert(!first.artists.contains_key(rowid)) by {
        if first.artists.contains_key(rowid) {
            assert(c.artists[rowid] == first.artists[rowid]);
            assert(first.artists[rowid].key != artist_key(track.artists[i]));
        }
    }
    let j = choose|j: int|
        0 <= j < track.artists.len() && c.artists[rowid] == #[trigger] artist_row(
            track.artists[j],
            now,
        );
    assert(artist_key(track.artists[i]) == artist_key(track.artists[j]));
}

proof fn lemma_new_album_row(track: TrackView, now: i64, rowids: Rowids, states: Seq<Catalogue>)
    requires
        lists_fit(track),
        enters(track, now, rowids, states),
        all_new(states[0], track),
    ensures
        !states[0].albums.contains_key(rowids.album),
        track.album.release_date is Some,
        states.last().albums[rowids.album] == album_row(
            track.album,
            track.album.release_date->0,
            now,
        ),
{
    law_entering_adds_the_track(track, now, rowids, states);
    let (first, c) = (states[0], states.last());
    if first.albums.contains_key(rowids.album) {
        assert(c.albums[rowids.album] == first.albums[rowids.album]);
    }
}

/// A track that is entered for the first time, with an album and artists that are new
/// too, can be read back: the document of its row is the track's, every part of it.
pub proof fn law_new_track_reads_back(
    track: TrackView,
    now: i64,
    rowids: Rowids,
    states: Seq<Catalogue>,
)
    requires
        lists_fit(track),
        enters(track, now, rowids, states),
        references_hold(states[0]),
        all_new(states[0], track),
    ensures
        track.album.release_date is Some,
        document(states.last(), rowids.track) == document_of(track, track.album.release_date->0),
{
    law_saved_track_reads_back(track, now, rowids, states);
    lemma_new_album_row(track, now, rowids, states);
    let (first, c) = (states[0], states.last());
    let of_album = |row: ImageRow| row.album_rowid == rowids.album;
    assert forall|i: int| 0 <= i < first.images.len() implies !of_album(
        #[trigger] first.images[i],
    ) by {
        assert(first.albums.contains_key(first.images[i].album_rowid));
    }
    lemma_filter_drops_all(first.images, of_album);
    assert(images_of(first.images, rowids.album) =~= Seq::<ImageDocument>::empty());
    assert(images_of(c.images, rowids.album) =~= image_documents(track.album.images));
    assert(artists_of(c, rowids.track) == artist_documents(track.artists)) by {
        law_entering_adds_the_track(track, now, rowids, states);
        lemma_new_track_row(track, now, rowids, states);
        assert forall|i: int| 0 <= i < first.links.len() implies (
        #[trigger] first.links[i]).track_rowid != rowids.track by {
            assert(first.tracks.contains_key(first.links[i].track_rowid));
        }
        lemma_artists_read_back(c, first.links, rowids.track, rowids.artists);
        assert forall|i: int| 0 <= i < track.artists.len() implies #[trigger] artists_of(
            c,
            rowids.track,
        )[i] == artist_documents(track.artists)[i] by {
            lemma_new_artist_rows(track, now, rowids, states, i);
        }
        assert(artists_of(c, rowids.track) =~= artist_documents(track.artists));
    }
}

/// What a lookup makes of a track that has been entered: one that reaches the track's key
/// finds a track, and where it reached none before it finds this one, as the document of
/// its row, whether the album and the artists were known before or not. Where they were
/// not, that document is the track's, every part of it.
pub proof fn law_new_track_is_looked_up(
    track: TrackView,
    now: i64,
    rowids: Rowids,
    states: Seq<Catalogue>,
    id: Seq<char>,
    answer: Option<Document>,
)
    requires
        lists_fit(track),
        enters(track, now, rowids, states),
        reaches(id, track_key(track)),
        lookup_answers(states.last(), lookup_statement(id), answer),
    ensures
        answer is Some,
        lookup_answers(states[0], lookup_statement(id), None) ==> {
            &&& is_new(states[0], track)
            &&& answer == Some(document(states.last(), rowids.track))
            &&& references_hold(states[0]) && all_new(states[0], track) ==> answer == Some(
                document_of(track, track.album.release_date->0),
            )
        },
{
    law_entering_adds_the_track(track, now, rowids, states);
    let (first, c) = (states[0], states.last());
    assert(c.tracks.contains_key(rowids.track));
    let select = lookup_statement(id);
    assert(asks_for(select, track_key(track)));
    if lookup_answers(first, select, None) {
        let rowid = choose|rowid: i64| #[trigger]
            c.tracks.contains_key(rowid) && asks_for(select, c.tracks[rowid].key) && answer->0
                == document(c, rowid);
        assert(rowid == rowids.track) by {
            if first.tracks.contains_key(rowid) {
                assert(c.tracks[rowid] == first.tracks[rowid]);
            }
            if first.tracks.contains_key(rowids.track) {
                assert(c.tracks[rowids.track] == first.tracks[rowids.track]);
            }
        }
        if references_hold(first) && all_new(first, track) {
            law_new_track_reads_back(track, now, rowids, states);
        }
    }
}

spec fn passed_step(
    track: TrackView,
    now: i64,
    rowids: Rowids,
    passed: Seq<Catalogue>,
    k: int,
) -> bool {
    let stage = stage_at(track, now, rowids, k);
    stage_effect(track, stage, read_at(stage, rowids), passed[k], passed[k + 1])
}

spec fn passes_along<E>(
    track: TrackView,
    replies: Seq<(ReplyView<E>, i64)>,
    states: Seq<Catalogue>,
    passed: Seq<Catalogue>,
) -> bool {
    let (now, rowids) = read_by(track, replies);
    &&& states.len() == replies.len() + 1
    &&& passed.len() == granted_requests(track, replies).len() + 1
    &&& passed[0] == states[0]
    &&& passed.last() == states.last()
    &&& forall|k: int|
        0 <= k < passed.len() - 1 ==> #[trigger] passed_step(track, now, rowids, passed, k)
}

proof fn lemma_passes_along<E>(
    track: TrackView,
    replies: Seq<(ReplyView<E>, i64)>,
    states: Seq<Catalogue>,
) -> (passed: Seq<Catalogue>)
    requires
        lists_fit(track),
        saving_passes(track, replies, states),
    ensures
        passes_along(track, replies, states, passed),
    decreases replies.len(),
{
    if replies.len() == 0 {
        states
    } else {
        let earlier = replies.drop_last();
        let passed = lemma_passes_along(track, earlier, states.drop_last());
        assert(states.drop_last()[0] == states[0]);
        let (now, rowids) = read_by(track, earlier);
        let read = read_by(track, replies);
        let stage = stage_after_all(track, Stage::Opening, earlier);
        let next = stage_after_all(track, Stage::Opening, replies);
        let (reply, clock) = replies.last();
        lemma_saving_run(track, earlier);
        lemma_saving_run(track, replies);
        let request = saving_request(saving_run(track, earlier));
        if request is Some {
            law_granted_save_goes_on(track, earlier, reply, clock);
        }
        if next == stage || next == Stage::Failed {
            passed
        } else {
            assert(grants(request->0, reply));
            law_requests_do_what_their_stages_are_for(
                track,
                stage,
                read_in(reply),
                states[replies.len() - 1],
                states.last(),
            );
            let k = granted_requests(track, earlier).len() as int;
            lemma_run_follows(track, earlier);
            lemma_step_on(track, reply, clock, now, rowids, k);
            let onward = passed.push(states.last());
            assert forall|j: int| 0 <= j < onward.len() - 1 implies #[trigger] passed_step(
                track,
                read.0,
                read.1,
                onward,
                j,
            ) by {
                if j < k {
                    assert(passed_step(track, now, rowids, passed, j));
                    assert(stage_at(track, now, rowids, j) == stage_at(track, now, read.1, j));
                }
            }
            onward
        }
    }
}

/// Entering a track is all or nothing, whatever the replies. A transaction that has
/// saved the track has left the catalogue as a run without a failure leaves it that was
/// opened at the same time and has read the same row ids; one that has failed, or is
/// dropped on the way, has left it as it was.
pub proof fn law_saving_is_all_or_nothing<E>(
    track: TrackView,
    replies: Seq<(ReplyView<E>, i64)>,
    states: Seq<Catalogue>,
)
    requires
        lists_fit(track),
        saving_passes(track, replies, states),
    ensures
        if saving_run(track, replies).stage == Stage::Saved {
            exists|passed: Seq<Catalogue>| #[trigger]
                enters(
                    track,
                    read_by(track, replies).0,
                    read_by(track, replies).1,
                    passed,
                ) && passed[0] == states[0] && passed.last() == catalogue_left(
                    track,
                    replies,
                    states,
                )
        } else {
            catalogue_left(track, replies, states) == states[0]
        },
{
    lemma_saving_run(track, replies);
    if saving_run(track, replies).stage == Stage::Saved {
        let (now, rowids) = read_by(track, replies);
        let passed = lemma_passes_along(track, replies, states);
        lemma_run_follows(track, replies);
        assert forall|k: int| 0 <= k < passed.len() - 1 implies #[trigger] step_effect(
            track,
            now,
            rowids,
            passed,
            k,
        ) by {
            lemma_granted_run(track, now, rowids, k as nat);
            assert(passed_step(track, now, rowids, passed, k));
            let stage = stage_at(track, now, rowids, k);
            law_requests_do_what_their_stages_are_for(
                track,
                stage,
                read_at(stage, rowids),
                passed[k],
                passed[k + 1],
            );
        }
        assert(enters(track, now, rowids, passed));
    }
}

/// What a transaction that has saved its track has put into the tables, column by column,
/// whatever replies came on the way. The track's row has the track's own id as a URI, its
/// name, numbers, length and the rest; the album's has the album's, if there is a release
/// date, and each artist gets one row with the artist's. Every picture is entered with its
/// own address, width and height, for a row that has the album's key, and so is the track.
/// Every artist is linked, in order: the row that has the artist's key to the row that has
/// the track's key, each in its own column. All rows have the time at which the
/// transaction was opened. Nothing else changes.
pub proof fn law_saved_track_is_there_column_by_column<E>(
    track: TrackView,
    replies: Seq<(ReplyView<E>, i64)>,
    states: Seq<Catalogue>,
)
    requires
        lists_fit(track),
        saving_passes(track, replies, states),
        saving_run(track, replies).stage == Stage::Saved,
    ensures
        ({
            let (first, left) = (states[0], states.last());
            let (now, rowids) = read_by(track, replies);
            let track_uri = match track.id {
                Some(id) => "spotify:track:"@ + id,
                None => Seq::empty(),
            };
            let album_uri = match track.album.id {
                Some(id) => "spotify:album:"@ + id,
                None => Seq::empty(),
            };
            let artist_uri = |artist: ArtistView|
                match artist.id {
                    Some(id) => "spotify:artist:"@ + id,
                    None => Seq::empty(),
                };
            &&& exists|i: int| #[trigger] opens_at(replies, i) && now == replies[i].1
            &&& row_added(
                first.tracks,
                left.tracks,
                TrackRow {
                    key: track_uri,
                    fetched_at: now,
                    name: track.name,
                    preview_url: track.preview_url,
                    album_rowid: rowids.album,
                    track_number: track.track_number as i64,
                    isrc: if track.external_ids.contains_key("isrc"@) {
                        Some(track.external_ids["isrc"@])
                    } else {
                        None
                    },
                    popularity: 0,
                    available_markets_rowid: 1,
                    disc_number: track.disc_number as i64,
                    duration_ms: track.duration_ms,
                    explicit: track.explicit,
                },
            )
            &&& match track.album.release_date {
                Some(date) => row_added(
                    first.albums,
                    left.albums,
                    AlbumRow {
                        key: album_uri,
                        fetched_at: now,
                        name: track.album.name,
                        album_type: "album"@,
                        available_markets_rowid: 1,
                        label: "Unknown"@,
                        popularity: 0,
                        release_date: date,
                        release_date_precision: "day"@,
                        total_tracks: 0,
                    },
                ),
                None => left.albums == first.albums,
            }
            &&& rows_added(
                first.artists,
                left.artists,
                track.artists.map_values(
                    |artist: ArtistView|
                        ArtistRow {
                            key: artist_uri(artist),
                            fetched_at: now,
                            name: artist.name,
                            followers_total: 0,
                            popularity: 0,
                        },
                ),
            )
            &&& left.images == first.images + track.album.images.map_values(
                |image: ImageView|
                    ImageRow {
                        album_rowid: rowids.album,
                        width: match image.width {
                            Some(width) => width as i64,
                            None => 0,
                        },
                        height: match image.height {
                            Some(height) => height as i64,
                            None => 0,
                        },
                        url: image.url,
                    },
            )
            &&& left.links.len() == first.links.len() + track.artists.len()
            &&& forall|i: int|
                0 <= i < first.links.len() ==> #[trigger] left.links[i] == first.links[i]
            &&& forall|i: int|
                0 <= i < track.artists.len() ==> {
                    let link = left.links[first.links.len() + i];
                    &&& link.track_rowid == rowids.track
                    &&& left.artists.contains_key(link.artist_rowid)
                    &&& left.artists[link.artist_rowid].key == artist_uri(
                        #[trigger] track.artists[i],
                    )
                }
            &&& left.albums.contains_key(rowids.album)
            &&& left.albums[rowids.album].key == album_uri
            &&& left.tracks.contains_key(rowids.track)
            &&& left.tracks[rowids.track].key == track_uri
            &&& left.markets == if first.markets.contains_key(1) {
                first.markets
            } else {
                first.markets.insert(1, "ALL"@)
            }
        }),
{
    law_saving_is_all_or_nothing(track, replies, states);
    lemma_saving_run(track, replies);
    lemma_time_is_that_of_the_opening(track, replies);
    let (first, left) = (states[0], states.last());
    let (now, rowids) = read_by(track, replies);
    let passed = choose|passed: Seq<Catalogue>| #[trigger]
        enters(track, now, rowids, passed) && passed[0] == first && passed.last() == left;
    law_entering_adds_the_track(track, now, rowids, passed);
    let artist_uri = |artist: ArtistView|
        match artist.id {
            Some(id) => "spotify:artist:"@ + id,
            None => Seq::empty(),
        };
    assert(artist_rows(track.artists, now) =~= track.artists.map_values(
        |artist: ArtistView|
            ArtistRow {
                key: artist_uri(artist),
                fetched_at: now,
                name: artist.name,
                followers_total: 0,
                popularity: 0,
            },
    ));
    assert(image_rows(track.album.images, rowids.album) =~= track.album.images.map_values(
        |image: ImageView|
            ImageRow {
                album_rowid: rowids.album,
                width: match image.width {
                    Some(width) => width as i64,
                    None => 0,
                },
                height: match image.height {
                    Some(height) => height as i64,
                    None => 0,
                },
                url: image.url,
            },
    ));
    assert forall|i: int| 0 <= i < track.artists.len() implies ({
        let link = left.links[first.links.len() + i];
        &&& link.track_rowid == rowids.track
        &&& left.artists.contains_key(link.artist_rowid)
        &&& left.artists[link.artist_rowid].key == artist_uri(#[trigger] track.artists[i])
    }) by {
        assert(left.links[first.links.len() + i].artist_rowid == rowids.artists[i]);
    }
}

/// Every artist of a track that is saved is linked to it, whether the artist was known
/// before or not: among the links added there is one from a row that has the track's key
/// to a row that has the artist's key.
pub proof fn law_every_artist_is_linked_to_its_track<E>(
    track: TrackView,
    replies: Seq<(ReplyView<E>, i64)>,
    states: Seq<Catalogue>,
    i: int,
)
    requires
        lists_fit(track),
        saving_passes(track, replies, states),
        saving_run(track, replies).stage == Stage::Saved,
        0 <= i < track.artists.len(),
    ensures
        exists|k: int|
            {
                &&& states[0].links.len() <= k < states.last().links.len()
                &&& states.last().tracks.contains_key(
                    (#[trigger] states.last().links[k]).track_rowid,
                )
                &&& states.last().tracks[states.last().links[k].track_rowid].key == track_key(track)
                &&& states.last().artists.contains_key(states.last().links[k].artist_rowid)
                &&& states.last().artists[states.last().links[k].artist_rowid].key == artist_key(
                    track.artists[i],
                )
            },
{
    law_saved_track_is_there_column_by_column(track, replies, states);
    let link = states.last().links[states[0].links.len() + i];
    assert(states.last().artists[link.artist_rowid].key == artist_key(track.artists[i]));
}

/// The statement that links an artist to a track puts the track's row id into the track's
/// column and the artist's into the artist's, whichever of the two is the greater.
pub proof fn law_link_keeps_track_and_artist_apart(
    track_rowid: i64,
    artist_rowid: i64,
    before: Catalogue,
    after: Catalogue,
)
    requires
        catalogue_effect(link_statement(track_rowid, artist_rowid), before, after),
    ensures
        after.links.len() == before.links.len() + 1,
        after.links.last().track_rowid == track_rowid,
        after.links.last().artist_rowid == artist_rowid,
        after.links.drop_last() == before.links,
        after == (Catalogue { links: after.links, ..before }),
{
    lemma_catalogue_texts();
    assert(after.links.drop_last() =~= before.links);
}

} // verus!
