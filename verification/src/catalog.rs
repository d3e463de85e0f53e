//! A track as Spotify describes it: what of it the catalogue stores.

use vstd::prelude::*;

use crate::ids::SpotifyId;

verus! {

use crate::ids::id_view;
use crate::sql::text_view;

/// A picture of an album's cover.
#[derive(Debug, PartialEq, Eq)]
pub struct Image {
    pub url: String,
    pub width: Option<u32>,
    pub height: Option<u32>,
}

/// A picture, its text as a sequence.
pub struct ImageView {
    pub url: Seq<char>,
    pub width: Option<u32>,
    pub height: Option<u32>,
}

impl View for Image {
    type V = ImageView;

    open spec fn view(&self) -> ImageView {
        ImageView { url: self.url@, width: self.width, height: self.height }
    }
}

/// An artist of a track.
#[derive(Debug, PartialEq, Eq)]
pub struct Artist {
    pub id: Option<SpotifyId>,
    pub name: String,
}

/// An artist, the texts as sequences.
pub struct ArtistView {
    pub id: Option<Seq<char>>,
    pub name: Seq<char>,
}

impl View for Artist {
    type V = ArtistView;

    open spec fn view(&self) -> ArtistView {
        ArtistView { id: id_view(self.id), name: self.name@ }
    }
}

/// The album of a track.
#[derive(Debug, PartialEq, Eq)]
pub struct Album {
    pub id: Option<SpotifyId>,
    pub name: String,
    pub release_date: Option<String>,
    pub images: Vec<Image>,
}

/// An album, its texts as sequences.
pub struct AlbumView {
    pub id: Option<Seq<char>>,
    pub name: Seq<char>,
    pub release_date: Option<Seq<char>>,
    pub images: Seq<ImageView>,
}

impl View for Album {
    type V = AlbumView;

    open spec fn view(&self) -> AlbumView {
        AlbumView {
            id: id_view(self.id),
            name: self.name@,
            release_date: text_view(self.release_date),
            images: self.images@.map_values(|image: Image| image@),
        }
    }
}

/// What another registry calls a track: the registry's name and its identifier.
#[derive(Debug, PartialEq, Eq)]
pub struct ExternalId {
    pub registry: String,
    pub value: String,
}

/// No registry is listed twice.
pub open spec fn registries_distinct(entries: Seq<ExternalId>) -> bool {
    forall|i: int, j: int|
        0 <= i < entries.len() && 0 <= j < entries.len() && (#[trigger] entries[i]).registry@ == (
        #[trigger] entries[j]).registry@ ==> i == j
}

/// What each registry calls the track, as a list says it.
pub open spec fn listed_ids(entries: Seq<ExternalId>) -> Map<Seq<char>, Seq<char>>
    decreases entries.len(),
{
    if entries.len() == 0 {
        Map::empty()
    } else {
        listed_ids(entries.drop_last()).insert(
            entries.last().registry@,
            entries.last().value@,
        )
    }
}

/// Where no registry is listed twice, the order of the list does not matter: a
/// registry's identifier is the one listed under its name, wherever it stands, and a
/// registry that is not listed has none.
pub proof fn law_external_ids_are_order_free(entries: Seq<ExternalId>)
    requires
        registries_distinct(entries),
    ensures
        forall|i: int|
            0 <= i < entries.len() ==> listed_ids(entries).contains_key(
                (#[trigger] entries[i]).registry@,
            ) && listed_ids(entries)[entries[i].registry@] == entries[i].value@,
        forall|registry: Seq<char>| #[trigger]
            listed_ids(entries).contains_key(registry) ==> exists|i: int|
                0 <= i < entries.len() && (#[trigger] entries[i]).registry@ == registry,
    decreases entries.len(),
{
    if entries.len() > 0 {
        let rest = entries.drop_last();
        assert forall|i: int, j: int|
            0 <= i < rest.len() && 0 <= j < rest.len() && (#[trigger] rest[i]).registry@ == (
            #[trigger] rest[j]).registry@ implies i == j by {
            assert(entries[i].registry@ == entries[j].registry@);
        }
        law_external_ids_are_order_free(rest);
        let last = entries.len() - 1;
        assert forall|i: int| 0 <= i < entries.len() implies listed_ids(entries).contains_key(
            (#[trigger] entries[i]).registry@,
        ) && listed_ids(entries)[entries[i].registry@] == entries[i].value@ by {
            if i < last {
                assert(rest[i] == entries[i]);
                assert(entries[i].registry@ != entries[last].registry@);
            }
        }
        assert forall|registry: Seq<char>| #[trigger]
            listed_ids(entries).contains_key(registry) implies exists|i: int|
            0 <= i < entries.len() && (#[trigger] entries[i]).registry@ == registry by {
            if registry == entries[last].registry@ {
                assert(entries[last].registry@ == registry);
            } else {
                assert(listed_ids(rest).contains_key(registry));
                let i = choose|i: int|
                    0 <= i < rest.len() && (#[trigger] rest[i]).registry@ == registry;
                assert(entries[i].registry@ == registry);
            }
        }
    }
}

/// What the other registries call a track. Each registry has one identifier at most.
#[derive(Debug, PartialEq, Eq)]
pub struct ExternalIds {
    entries: Vec<ExternalId>,
}

impl View for ExternalIds {
    type V = Map<Seq<char>, Seq<char>>;

    closed spec fn view(&self) -> Map<Seq<char>, Seq<char>> {
        listed_ids(self.entries@)
    }
}

impl ExternalIds {
    #[verifier::type_invariant]
    spec fn each_registry_once(self) -> bool {
        registries_distinct(self.entries@)
    }

    /// No identifier.
    pub fn new() -> (ids: ExternalIds)
        ensures
            ids@ == Map::<Seq<char>, Seq<char>>::empty(),
    {
        ExternalIds { entries: Vec::new() }
    }

    fn position(&self, registry: &String) -> (found: Option<usize>)
        ensures
            match found {
                Some(i) => i < self.entries@.len() && self.entries@[i as int].registry@
                    == registry@,
                None => forall|i: int|
                    0 <= i < self.entries@.len() ==> (#[trigger] self.entries@[i]).registry@
                        != registry@,
            },
    {
        let mut i: usize = 0;
        while i < self.entries.len()
            invariant
                i <= self.entries@.len(),
                forall|k: int|
                    0 <= k < i ==> (#[trigger] self.entries@[k]).registry@ != registry@,
            decreases self.entries@.len() - i,
        {
            if self.entries[i].registry.eq(registry) {
                return Some(i);
            }
            i = i + 1;
        }
        None
    }

    /// The identifiers with that of one registry added, in place of the one that the
    /// registry had.
    pub fn with(self, registry: String, value: String) -> (ids: ExternalIds)
        ensures
            ids@ == self@.insert(registry@, value@),
    {
        proof {
            use_type_invariant(&self);
        }
        let ghost before = self.entries@;
        let found: Option<usize> = self.position(&registry);
        let mut entries: Vec<ExternalId> = self.entries;
        let entry = ExternalId { registry, value };
        match found {
            Some(i) => {
                entries.set(i, entry);
                proof {
                    law_external_ids_are_order_free(before);
                    assert(entries@ =~= before.update(i as int, entry));
                    assert(registries_distinct(entries@)) by {
                        assert forall|a: int, b: int|
                            0 <= a < entries@.len() && 0 <= b < entries@.len() && (
                            #[trigger] entries@[a]).registry@ == (
                            #[trigger] entries@[b]).registry@ implies a == b by {
                            assert(before[a].registry@ == before[b].registry@);
                        }
                    }
                    law_external_ids_are_order_free(entries@);
                    let (was, is) = (listed_ids(before), listed_ids(entries@));
                    assert forall|name: Seq<char>| is.contains_key(name) == was.insert(
                        registry@,
                        value@,
                    ).contains_key(name) by {
                        if is.contains_key(name) {
                            let k = choose|k: int|
                                0 <= k < entries@.len() && (#[trigger] entries@[k]).registry@
                                    == name;
                            assert(before[k].registry@ == name);
                        }
                        if was.contains_key(name) {
                            let k = choose|k: int|
                                0 <= k < before.len() && (#[trigger] before[k]).registry@ == name;
                            assert(entries@[k].registry@ == name);
                        }
                        assert(entries@[i as int].registry@ == registry@);
                    }
                    assert forall|name: Seq<char>| is.contains_key(name) implies is[name]
                        == was.insert(registry@, value@)[name] by {
                        let k = choose|k: int|
                            0 <= k < entries@.len() && (#[trigger] entries@[k]).registry@ == name;
                        assert(before[k].registry@ == name);
                        assert(entries@[i as int].registry@ == registry@);
                    }
                    assert(is =~= was.insert(registry@, value@));
                }
            },
            None => {
                entries.push(entry);
                assert(entries@.drop_last() =~= before);
            },
        }
        ExternalIds { entries }
    }

    /// What `registry` calls the track.
    pub fn get(&self, registry: &str) -> (id: Option<String>)
        ensures
            text_view(id) == external_id_in(self@, registry@),
    {
        proof {
            use_type_invariant(self);
            law_external_ids_are_order_free(self.entries@);
        }
        match self.position(&registry.to_owned()) {
            Some(i) => Some(self.entries[i].value.clone()),
            None => None,
        }
    }
}

/// What `registry` calls the track, if it knows it.
pub open spec fn external_id_in(
    ids: Map<Seq<char>, Seq<char>>,
    registry: Seq<char>,
) -> Option<Seq<char>> {
    if ids.contains_key(registry) {
        Some(ids[registry])
    } else {
        None
    }
}

/// A track. A local track has no id.
#[derive(Debug, PartialEq, Eq)]
pub struct Track {
    pub id: Option<SpotifyId>,
    pub name: String,
    pub preview_url: Option<String>,
    pub track_number: u32,
    pub disc_number: i32,
    pub duration_ms: i64,
    pub explicit: bool,
    pub external_ids: ExternalIds,
    pub album: Album,
    pub artists: Vec<Artist>,
}

/// A track, its texts as sequences.
pub struct TrackView {
    pub id: Option<Seq<char>>,
    pub name: Seq<char>,
    pub preview_url: Option<Seq<char>>,
    pub track_number: u32,
    pub disc_number: i32,
    pub duration_ms: i64,
    pub explicit: bool,
    pub external_ids: Map<Seq<char>, Seq<char>>,
    pub album: AlbumView,
    pub artists: Seq<ArtistView>,
}

impl View for Track {
    type V = TrackView;

    open spec fn view(&self) -> TrackView {
        TrackView {
            id: id_view(self.id),
            name: self.name@,
            preview_url: text_view(self.preview_url),
            track_number: self.track_number,
            disc_number: self.disc_number,
            duration_ms: self.duration_ms,
            explicit: self.explicit,
            external_ids: self.external_ids@,
            album: self.album@,
            artists: self.artists@.map_values(|artist: Artist| artist@),
        }
    }
}

/// The registry of the International Standard Recording Code.
pub const ISRC: &'static str = "isrc";

/// A track is seen as it is, field by field, with every picture and every artist in its
/// place.
pub proof fn law_track_is_seen_as_it_is(track: Track)
    ensures
        track@.id is Some <==> track.id is Some,
        track.id is Some ==> track@.id->0 == track.id->0@,
        track@.name == track.name@,
        track@.preview_url is Some <==> track.preview_url is Some,
        track.preview_url is Some ==> track@.preview_url->0 == track.preview_url->0@,
        track@.track_number == track.track_number,
        track@.disc_number == track.disc_number,
        track@.duration_ms == track.duration_ms,
        track@.explicit == track.explicit,
        track@.external_ids == track.external_ids@,
        track@.album.id is Some <==> track.album.id is Some,
        track.album.id is Some ==> track@.album.id->0 == track.album.id->0@,
        track@.album.name == track.album.name@,
        track@.album.release_date is Some <==> track.album.release_date is Some,
        track.album.release_date is Some ==> track@.album.release_date->0
            == track.album.release_date->0@,
        track@.album.images.len() == track.album.images@.len(),
        forall|i: int|
            0 <= i < track.album.images@.len() ==> {
                let (seen, image) = (#[trigger] track@.album.images[i], track.album.images@[i]);
                &&& seen.url == image.url@
                &&& seen.width == image.width
                &&& seen.height == image.height
            },
        track@.artists.len() == track.artists@.len(),
        forall|i: int|
            0 <= i < track.artists@.len() ==> {
                let (seen, artist) = (#[trigger] track@.artists[i], track.artists@[i]);
                &&& seen.name == artist.name@
                &&& seen.id is Some <==> artist.id is Some
                &&& artist.id is Some ==> seen.id->0 == artist.id->0@
            },
{
}

/// What a registry calls a track is what was last said of it: adding one registry's
/// identifier changes no other's, and a registry of which nothing was said has none.
pub proof fn law_latest_identifier_counts(
    ids: ExternalIds,
    registry: String,
    value: String,
    added: ExternalIds,
    asked: &str,
    answer: Option<String>,
)
    requires
        call_ensures(ExternalIds::with, (ids, registry, value), added),
        call_ensures(ExternalIds::get, (&added, asked), answer),
    ensures
        asked@ == registry@ ==> answer is Some && answer->0@ == value@,
        asked@ != registry@ ==> (answer is Some <==> ids@.contains_key(asked@)),
        asked@ != registry@ && answer is Some ==> answer->0@ == ids@[asked@],
{
}

} // verus!
