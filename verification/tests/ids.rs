use spotify_resolver::ids::{clean_spotify_id, storage_key, ObjectKind, SpotifyId};

#[test]
fn bare_id_is_kept() {
    assert_eq!(clean_spotify_id("4uLU6hMCjMI75M1A2tKUQC"), "4uLU6hMCjMI75M1A2tKUQC");
}

#[test]
fn url_gives_its_last_segment() {
    assert_eq!(
        clean_spotify_id("https://open.spotify.com/track/4uLU6hMCjMI75M1A2tKUQC?si=abc123"),
        "4uLU6hMCjMI75M1A2tKUQC"
    );
    assert_eq!(
        clean_spotify_id("https://open.spotify.com/track/4uLU6hMCjMI75M1A2tKUQC"),
        "4uLU6hMCjMI75M1A2tKUQC"
    );
}

#[test]
fn uri_gives_its_last_segment() {
    assert_eq!(
        clean_spotify_id("spotify:track:4uLU6hMCjMI75M1A2tKUQC"),
        "4uLU6hMCjMI75M1A2tKUQC"
    );
}

#[test]
fn query_is_cut_at_the_first_question_mark() {
    assert_eq!(clean_spotify_id("abc?x=1?y=2"), "abc");
    assert_eq!(clean_spotify_id("abc?path=/d:e"), "abc");
    assert_eq!(clean_spotify_id("?abc"), "");
}

#[test]
fn separators_are_cut_in_any_order() {
    assert_eq!(clean_spotify_id("a/b:c"), "c");
    assert_eq!(clean_spotify_id("a:b/c"), "c");
    assert_eq!(clean_spotify_id("a/"), "");
    assert_eq!(clean_spotify_id("a:"), "");
    assert_eq!(clean_spotify_id(""), "");
}

#[test]
fn other_characters_are_kept() {
    assert_eq!(clean_spotify_id("x/né 日本?q"), "né 日本");
}

#[test]
fn cleaning_twice_is_cleaning_once() {
    for raw in ["spotify:track:abc", "a/b?c", "abc", "", "a//b::"] {
        let once = clean_spotify_id(raw);
        assert_eq!(clean_spotify_id(&once), once);
        assert!(!once.contains(['?', '/', ':']));
    }
}

#[test]
fn object_ids_are_alphanumeric() {
    assert_eq!(SpotifyId::parse("4uLU6hMCjMI75M1A2tKUQC").unwrap().as_str(), "4uLU6hMCjMI75M1A2tKUQC");
    assert_eq!(SpotifyId::parse("azAZ09").unwrap().as_str(), "azAZ09");
    assert!(SpotifyId::parse("with space").is_none());
    assert!(SpotifyId::parse("spotify:track:abc").is_none());
    assert!(SpotifyId::parse("abc-def").is_none());
    assert!(SpotifyId::parse("é").is_none());
    for edge in ["/", ":", "@", "[", "`", "{"] {
        assert!(SpotifyId::parse(edge).is_none());
    }
}

#[test]
fn empty_object_id_is_accepted() {
    assert_eq!(SpotifyId::parse("").unwrap().as_str(), "");
}

#[test]
fn uris_name_the_kind() {
    let id = SpotifyId::parse("abc123").unwrap();
    assert_eq!(id.uri(ObjectKind::Track), "spotify:track:abc123");
    assert_eq!(id.uri(ObjectKind::Album), "spotify:album:abc123");
    assert_eq!(id.uri(ObjectKind::Artist), "spotify:artist:abc123");
}

#[test]
fn cleaning_a_uri_gives_the_id_back() {
    let id = SpotifyId::parse("abc123").unwrap();
    for kind in [ObjectKind::Track, ObjectKind::Album, ObjectKind::Artist] {
        assert_eq!(clean_spotify_id(&id.uri(kind)), "abc123");
    }
}

#[test]
fn storage_key_is_the_uri_or_nothing() {
    assert_eq!(storage_key(ObjectKind::Album, &SpotifyId::parse("x1")), "spotify:album:x1");
    assert_eq!(storage_key(ObjectKind::Track, &None), "");
}
