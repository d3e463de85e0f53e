//! Spotify identifiers as they arrive in requests and as they are stored.

use rspotify::model::{AlbumId, ArtistId, TrackId};
use vstd::prelude::*;

verus! {

/// What stands before the first `c`; all of `s` where `c` does not occur.
pub open spec fn before_first(s: Seq<char>, c: char) -> Seq<char> {
    match s.index_of_first(c) {
        Some(i) => s.take(i),
        None => s,
    }
}

/// What stands behind the last `c`; all of `s` where `c` does not occur.
pub open spec fn after_last(s: Seq<char>, c: char) -> Seq<char> {
    match s.index_of_last(c) {
        Some(i) => s.skip(i + 1),
        None => s,
    }
}

/// The bare identifier in a raw id, a URL or a URI: the query is cut off, then
/// everything up to the last slash, then everything up to the last colon.
pub open spec fn cleaned(raw: Seq<char>) -> Seq<char> {
    after_last(after_last(before_first(raw, '?'), '/'), ':')
}

/// A character that separates the segments of a URL or a URI.
pub open spec fn is_separator(c: char) -> bool {
    c == '/' || c == ':'
}

proof fn lemma_before_first(s: Seq<char>, c: char, end: int)
    requires
        0 <= end <= s.len(),
        forall|j: int| 0 <= j < end ==> s[j] != c,
        end < s.len() ==> s[end] == c,
    ensures
        before_first(s, c) == s.take(end),
{
    s.index_of_first_ensures(c);
    if end < s.len() {
        assert(s.contains(c));
        let i = s.index_of_first(c).unwrap();
        assert(i == end) by {
            if i < end {
                assert(s[i] != c);
            }
        }
    } else {
        assert(s.take(end) =~= s);
    }
}

proof fn lemma_after_last(s: Seq<char>, c: char, start: int)
    requires
        0 <= start <= s.len(),
        forall|j: int| start <= j < s.len() ==> s[j] != c,
        start > 0 ==> s[start - 1] == c,
    ensures
        after_last(s, c) == s.skip(start),
{
    s.index_of_last_ensures(c);
    if start > 0 {
        assert(s.contains(c));
        let i = s.index_of_last(c).unwrap();
        assert(i == start - 1) by {
            if i > start - 1 {
                assert(s[i] != c);
            }
        }
    } else {
        assert(s.skip(start) =~= s);
    }
}

/// The segment that runs from behind the last separator up to the query is the
/// bare identifier.
proof fn lemma_cleaned_is_last_segment(s: Seq<char>, start: int, end: int)
    requires
        0 <= start <= end <= s.len(),
        forall|j: int| 0 <= j < end ==> s[j] != '?',
        end < s.len() ==> s[end] == '?',
        forall|j: int| start <= j < end ==> !is_separator(#[trigger] s[j]),
        start > 0 ==> is_separator(s[start - 1]),
    ensures
        cleaned(s) == s.subrange(start, end),
{
    lemma_before_first(s, '?', end);
    let path = s.take(end);
    path.index_of_last_ensures('/');
    path.index_of_last_ensures(':');
    let slash: int = match path.index_of_last('/') {
        Some(i) => i + 1,
        None => 0,
    };
    lemma_after_last_of(path, '/', slash);
    let tail = path.skip(slash);
    assert(slash <= start) by {
        if slash > start {
            assert(!is_separator(s[slash - 1]));
        }
    }
    if slash == start {
        lemma_after_last(tail, ':', 0);
        assert(tail.skip(0) =~= s.subrange(start, end));
    } else {
        assert(s[start - 1] == ':') by {
            assert(path[start - 1] != '/');
        }
        assert forall|j: int| start - slash <= j < tail.len() implies tail[j] != ':' by {
            assert(!is_separator(s[j + slash]));
        }
        lemma_after_last(tail, ':', start - slash);
        assert(tail.skip(start - slash) =~= s.subrange(start, end));
    }
}

proof fn lemma_after_last_of(s: Seq<char>, c: char, start: int)
    requires
        start == (match s.index_of_last(c) {
            Some(i) => i + 1,
            None => 0int,
        }),
    ensures
        after_last(s, c) == s.skip(start),
        0 <= start <= s.len(),
        start > 0 ==> s[start - 1] == c,
        forall|j: int| start <= j < s.len() ==> s[j] != c,
{
    s.index_of_last_ensures(c);
    if start == 0 {
        assert(s.skip(0) =~= s);
        assert forall|j: int| start <= j < s.len() implies s[j] != c by {
            if s[j] == c {
                assert(s.contains(c));
            }
        }
    }
}

/// The bare identifier that a request names, in whichever of its three forms the
/// request writes it: `id`, `https://host/track/id?query` or `spotify:track:id`.
pub fn clean_spotify_id(input: &str) -> (id: String)
    ensures
        id@ == cleaned(input@),
{
    let len: usize = input.unicode_len();
    let mut start: usize = 0;
    let mut end: usize = 0;
    let mut in_path: bool = true;
    for c in chars: input.chars()
        invariant
            chars.seq() == input@,
            len == input@.len(),
            0 <= start <= end <= chars.index() <= len,
            in_path ==> end == chars.index(),
            !in_path ==> end < chars.index() && input@[end as int] == '?',
            forall|j: int| 0 <= j < end ==> input@[j] != '?',
            forall|j: int| start <= j < end ==> !is_separator(#[trigger] input@[j]),
            start > 0 ==> is_separator(input@[start - 1]),
    {
        if in_path {
            if c == '?' {
                in_path = false;
            } else {
                end = end + 1;
                if c == '/' || c == ':' {
                    start = end;
                }
            }
        }
    }
    proof {
        lemma_cleaned_is_last_segment(input@, start as int, end as int);
    }
    input.substring_char(start, end).to_owned()
}

/// A character that Spotify's object ids are made of.
pub open spec fn is_id_char(c: char) -> bool {
    ('0' <= c && c <= '9') || ('A' <= c && c <= 'Z') || ('a' <= c && c <= 'z')
}

/// A well-formed object id. The empty id counts as one.
pub open spec fn is_object_id(s: Seq<char>) -> bool {
    forall|i: int| 0 <= i < s.len() ==> is_id_char(#[trigger] s[i])
}

/// The kinds of Spotify object that the catalogue stores.
#[derive(Clone, Copy, Debug, PartialEq, Eq, Structural)]
pub enum ObjectKind {
    Track,
    Album,
    Artist,
}

/// What an object's URI holds in front of its id.
pub open spec fn uri_prefix(kind: ObjectKind) -> Seq<char> {
    match kind {
        ObjectKind::Track => "spotify:track:"@,
        ObjectKind::Album => "spotify:album:"@,
        ObjectKind::Artist => "spotify:artist:"@,
    }
}

/// An object's URI.
pub open spec fn uri_of(kind: ObjectKind, id: Seq<char>) -> Seq<char> {
    uri_prefix(kind) + id
}

/// Calls `TrackId::from_id` of rspotify, which accepts exactly the strings whose
/// characters are all ASCII letters or digits, the empty string among them.
#[verifier::external_body]
fn track_id_is_valid(id: &str) -> (valid: bool)
    ensures
        valid == is_object_id(id@),
{
    TrackId::from_id(id).is_ok()
}

/// Calls the `Display` impl of rspotify's `TrackId`, which writes the URI:
/// `spotify:track:` and the id.
#[verifier::external_body]
fn display_track_id(id: &str) -> (text: String)
    requires
        is_object_id(id@),
    ensures
        text@ == uri_of(ObjectKind::Track, id@),
{
    TrackId::from_id(id).unwrap().to_string()
}

/// Calls the `Display` impl of rspotify's `AlbumId`, which writes the URI:
/// `spotify:album:` and the id.
#[verifier::external_body]
fn display_album_id(id: &str) -> (text: String)
    requires
        is_object_id(id@),
    ensures
        text@ == uri_of(ObjectKind::Album, id@),
{
    AlbumId::from_id(id).unwrap().to_string()
}

/// Calls the `Display` impl of rspotify's `ArtistId`, which writes the URI:
/// `spotify:artist:` and the id.
#[verifier::external_body]
fn display_artist_id(id: &str) -> (text: String)
    requires
        is_object_id(id@),
    ensures
        text@ == uri_of(ObjectKind::Artist, id@),
{
    ArtistId::from_id(id).unwrap().to_string()
}

/// A well-formed object id.
#[derive(Debug, PartialEq, Eq)]
pub struct SpotifyId {
    text: String,
}

impl View for SpotifyId {
    type V = Seq<char>;

    closed spec fn view(&self) -> Seq<char> {
        self.text@
    }
}

impl SpotifyId {
    #[verifier::type_invariant]
    spec fn well_formed(self) -> bool {
        is_object_id(self.text@)
    }

    /// The id that `text` writes, if it is one.
    pub fn parse(text: &str) -> (id: Option<SpotifyId>)
        ensures
            id is Some <==> is_object_id(text@),
            id is Some ==> id->0@ == text@,
    {
        if track_id_is_valid(text) {
            Some(SpotifyId { text: text.to_owned() })
        } else {
            None
        }
    }

    /// The id itself.
    pub fn as_str(&self) -> (text: &str)
        ensures
            text@ == self@,
            is_object_id(text@),
    {
        proof {
            use_type_invariant(self);
        }
        self.text.as_str()
    }

    /// The URI of the object of this kind that has this id.
    pub fn uri(&self, kind: ObjectKind) -> (uri: String)
        ensures
            uri@ == uri_of(kind, self@),
    {
        proof {
            use_type_invariant(self);
        }
        match kind {
            ObjectKind::Track => display_track_id(self.text.as_str()),
            ObjectKind::Album => display_album_id(self.text.as_str()),
            ObjectKind::Artist => display_artist_id(self.text.as_str()),
        }
    }
}

/// The key that an object is stored under: its URI, or nothing where it has no id.
pub open spec fn key_of(kind: ObjectKind, id: Option<Seq<char>>) -> Seq<char> {
    match id {
        Some(id) => uri_of(kind, id),
        None => Seq::empty(),
    }
}

/// The view of an id that may be missing.
pub open spec fn id_view(id: Option<SpotifyId>) -> Option<Seq<char>> {
    match id {
        Some(id) => Some(id@),
        None => None,
    }
}

/// The key that an object is stored under.
pub fn storage_key(kind: ObjectKind, id: &Option<SpotifyId>) -> (key: String)
    ensures
        key@ == key_of(kind, id_view(*id)),
{
    match id {
        Some(id) => id.uri(kind),
        None => String::new(),
    }
}

/// A character that no bare identifier holds.
pub open spec fn is_delimiter(c: char) -> bool {
    c == '?' || is_separator(c)
}

/// A string without a delimiter.
pub open spec fn is_bare(s: Seq<char>) -> bool {
    forall|i: int| 0 <= i < s.len() ==> !is_delimiter(#[trigger] s[i])
}

/// Cleaning leaves no delimiter.
pub proof fn law_cleaned_is_bare(raw: Seq<char>)
    ensures
        is_bare(cleaned(raw)),
{
    let path = before_first(raw, '?');
    raw.index_of_first_ensures('?');
    assert forall|i: int| 0 <= i < path.len() implies path[i] != '?' by {
        if path[i] == '?' {
            assert(raw.contains(raw[i]));
        }
    }
    path.index_of_last_ensures('/');
    let slash: int = match path.index_of_last('/') {
        Some(i) => i + 1,
        None => 0,
    };
    lemma_after_last_of(path, '/', slash);
    let tail = path.skip(slash);
    tail.index_of_last_ensures(':');
    let colon: int = match tail.index_of_last(':') {
        Some(i) => i + 1,
        None => 0,
    };
    lemma_after_last_of(tail, ':', colon);
    assert forall|i: int| 0 <= i < cleaned(raw).len() implies !is_delimiter(
        #[trigger] cleaned(raw)[i],
    ) by {
        assert(cleaned(raw)[i] == tail[i + colon]);
        assert(tail[i + colon] == path[i + colon + slash]);
    }
}

/// A bare identifier is kept as it is.
pub proof fn law_bare_is_kept(id: Seq<char>)
    requires
        is_bare(id),
    ensures
        cleaned(id) == id,
{
    assert forall|j: int| 0 <= j < id.len() implies id[j] != '?' by {
        assert(!is_delimiter(id[j]));
    }
    assert forall|j: int| 0 <= j < id.len() implies !is_separator(#[trigger] id[j]) by {
        assert(!is_delimiter(id[j]));
    }
    lemma_cleaned_is_last_segment(id, 0, id.len() as int);
    assert(id.subrange(0, id.len() as int) =~= id);
}

/// Cleaning twice is cleaning once.
pub proof fn law_cleaning_is_idempotent(raw: Seq<char>)
    ensures
        cleaned(cleaned(raw)) == cleaned(raw),
{
    law_cleaned_is_bare(raw);
    law_bare_is_kept(cleaned(raw));
}

/// The last segment of a URL or a URI is its identifier, whatever stands in front
/// of it and whatever query follows it.
pub proof fn law_last_segment_is_the_id(
    front: Seq<char>,
    separator: char,
    id: Seq<char>,
    query: Seq<char>,
)
    requires
        !front.contains('?'),
        is_separator(separator),
        is_bare(id),
    ensures
        cleaned(front.push(separator) + id) == id,
        cleaned(front.push(separator) + id.push('?') + query) == id,
{
    let start: int = front.len() as int + 1;
    let end: int = start + id.len();
    let plain = front.push(separator) + id;
    let with_query = front.push(separator) + id.push('?') + query;
    assert forall|j: int| 0 <= j < end implies plain[j] != '?' && with_query[j] == plain[j] by {
        if j < front.len() {
            assert(front.contains(front[j]));
        } else if j >= start {
            assert(!is_delimiter(id[j - start]));
        }
    }
    assert forall|j: int| start <= j < end implies !is_separator(#[trigger] plain[j]) by {
        assert(!is_delimiter(id[j - start]));
    }
    assert forall|j: int| start <= j < end implies !is_separator(#[trigger] with_query[j]) by {
        assert(!is_delimiter(id[j - start]));
    }
    lemma_cleaned_is_last_segment(plain, start, end);
    assert(plain.subrange(start, end) =~= id);
    lemma_cleaned_is_last_segment(with_query, start, end);
    assert(with_query.subrange(start, end) =~= id);
}

/// Cleaning an object's URI gives its id back.
pub proof fn law_cleaning_undoes_uri(kind: ObjectKind, id: Seq<char>)
    requires
        is_object_id(id),
    ensures
        cleaned(uri_of(kind, id)) == id,
{
    reveal_strlit("spotify:track:");
    reveal_strlit("spotify:album:");
    reveal_strlit("spotify:artist:");
    let prefix = uri_prefix(kind);
    let front = prefix.drop_last();
    assert(front.push(':') =~= prefix);
    assert forall|i: int| 0 <= i < front.len() implies front[i] != '?' by {}
    assert forall|i: int| 0 <= i < id.len() implies !is_delimiter(#[trigger] id[i]) by {
        assert(is_id_char(id[i]));
    }
    law_last_segment_is_the_id(front, ':', id, Seq::empty());
}

/// What `clean_spotify_id` gives is one stretch of what it was given, whatever that is: it
/// ends at the first question mark, or at the end where there is none, and it begins
/// behind the last slash or colon in front of that, or at the beginning where there is
/// none.
pub proof fn law_cleaned_id_is_the_last_segment(input: &str, id: String)
    requires
        call_ensures(clean_spotify_id, (input,), id),
    ensures
        exists|start: int, end: int| #[trigger]
            is_last_segment(input@, start, end) && id@ == input@.subrange(start, end),
{
    let raw = input@;
    raw.index_of_first_ensures('?');
    let end: int = match raw.index_of_first('?') {
        Some(i) => i,
        None => raw.len() as int,
    };
    assert forall|j: int| 0 <= j < end implies raw[j] != '?' by {
        if raw[j] == '?' {
            assert(raw.contains('?'));
        }
    }
    let start = lemma_segment_start(raw, end);
    lemma_cleaned_is_last_segment(raw, start, end);
    assert(is_last_segment(raw, start, end));
}

/// The stretch from `start` to `end` ends at the first question mark or at the end, and
/// begins behind the last slash or colon in front of that or at the beginning.
pub open spec fn is_last_segment(raw: Seq<char>, start: int, end: int) -> bool {
    &&& 0 <= start <= end <= raw.len()
    &&& forall|j: int| 0 <= j < end ==> raw[j] != '?'
    &&& end == raw.len() || raw[end] == '?'
    &&& forall|j: int| start <= j < end ==> raw[j] != '/' && raw[j] != ':'
    &&& start == 0 || raw[start - 1] == '/' || raw[start - 1] == ':'
}

proof fn lemma_segment_start(raw: Seq<char>, end: int) -> (start: int)
    requires
        0 <= end <= raw.len(),
    ensures
        0 <= start <= end,
        forall|j: int| start <= j < end ==> !is_separator(#[trigger] raw[j]),
        start > 0 ==> is_separator(raw[start - 1]),
    decreases end,
{
    if end == 0 || is_separator(raw[end - 1]) {
        end
    } else {
        lemma_segment_start(raw, end - 1)
    }
}

/// A text is an object id exactly where all its characters are ASCII digits and letters,
/// and only such a text is parsed as one, unchanged.
pub proof fn law_object_ids_are_letters_and_digits(text: &str, id: Option<SpotifyId>)
    requires
        call_ensures(SpotifyId::parse, (text,), id),
    ensures
        id is Some <==> forall|i: int|
            #![trigger text@[i]]
            0 <= i < text@.len() ==> '0' <= text@[i] <= '9' || 'A' <= text@[i] <= 'Z' || 'a'
                <= text@[i] <= 'z',
        id is Some ==> id->0@ == text@,
        id is Some <==> is_object_id(text@),
{
    assert forall|i: int| 0 <= i < text@.len() implies (#[trigger] is_id_char(text@[i]) <==> ('0'
        <= text@[i] <= '9' || 'A' <= text@[i] <= 'Z' || 'a' <= text@[i] <= 'z')) by {}
}

/// An object is stored under its URI, which names its kind and ends with its very id; one
/// without an id is stored under the empty text.
pub proof fn law_key_is_the_uri(kind: ObjectKind, id: Option<SpotifyId>, key: String)
    requires
        call_ensures(storage_key, (kind, &id), key),
    ensures
        key@ == (match (kind, id) {
            (_, None) => Seq::<char>::empty(),
            (ObjectKind::Track, Some(id)) => "spotify:track:"@ + id@,
            (ObjectKind::Album, Some(id)) => "spotify:album:"@ + id@,
            (ObjectKind::Artist, Some(id)) => "spotify:artist:"@ + id@,
        }),
{
}

/// Objects of different kinds, or with different ids, have different keys.
pub proof fn law_keys_tell_objects_apart(
    a: ObjectKind,
    b: ObjectKind,
    x: Option<Seq<char>>,
    y: Option<Seq<char>>,
)
    requires
        key_of(a, x) == key_of(b, y),
    ensures
        x == y,
        x is Some ==> a == b,
{
    reveal_strlit("spotify:track:");
    reveal_strlit("spotify:album:");
    reveal_strlit("spotify:artist:");
    if x is Some && y is Some {
        let (s, t) = (key_of(a, x), key_of(b, y));
        assert(s[8] == t[8] && s[9] == t[9]);
        assert(a == b);
        let n = uri_prefix(a).len() as int;
        assert(s.skip(n) =~= x->0);
        assert(t.skip(n) =~= y->0);
    } else if x is Some {
        assert(key_of(a, x).len() > 0);
    } else if y is Some {
        assert(key_of(b, y).len() > 0);
    }
}

} // verus!
