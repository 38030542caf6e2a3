use spotuify::media::MediaKind;
use spotuify::uri::{
    AlbumId, ArtistId, PlaylistId, ResourceUri, TrackId, UriError, UriScheme, UriSchemeError,
};

#[test]
fn parses_every_supported_canonical_resource_kind() {
    let cases = [
        ("spotify:track:track-1", MediaKind::Track, "track-1"),
        ("spotify:episode:episode-1", MediaKind::Episode, "episode-1"),
        ("spotify:show:show-1", MediaKind::Show, "show-1"),
        ("spotify:album:album-1", MediaKind::Album, "album-1"),
        ("spotify:artist:artist-1", MediaKind::Artist, "artist-1"),
        (
            "spotify:playlist:playlist-1",
            MediaKind::Playlist,
            "playlist-1",
        ),
    ];

    for (input, expected_kind, expected_id) in cases {
        let uri = ResourceUri::parse(input).expect("canonical URI should parse");
        assert_eq!(uri.scheme(), &UriScheme::spotify());
        assert_eq!(uri.kind(), expected_kind);
        assert_eq!(uri.bare_id(), expected_id);
    }
}

#[test]
fn fake_provider_has_an_independent_canonical_namespace() {
    let uri = ResourceUri::parse("fake:track:shared").unwrap();
    assert_eq!(uri.scheme(), &UriScheme::fake());
    assert_eq!(uri.kind(), MediaKind::Track);
    assert_eq!(uri.bare_id(), "shared");
    assert_eq!(uri.as_uri(), "fake:track:shared");
}

#[test]
fn provider_instances_can_have_distinct_dynamic_namespaces() {
    let first = ResourceUri::parse("fake-a:track:shared").unwrap();
    let second = ResourceUri::parse("fake-b:track:shared").unwrap();
    assert_ne!(first, second);
    assert!(!first.same(&second));
    assert_eq!(first.scheme().label(), "fake-a");
    assert_eq!(second.scheme().label(), "fake-b");
}

#[test]
fn rejects_malformed_and_non_canonical_resource_uris() {
    let cases = [
        ("", UriError::InvalidShape),
        ("spotify:track", UriError::InvalidShape),
        ("spotify:track:id:extra", UriError::InvalidShape),
        ("spotify:user:alice:playlist:mix", UriError::InvalidShape),
        (
            "Spotify:track:id",
            UriError::UnsupportedScheme("Spotify".to_string()),
        ),
        (
            "spotify:video:id",
            UriError::UnsupportedKind("video".to_string()),
        ),
        (
            "spotify:Track:id",
            UriError::UnsupportedKind("Track".to_string()),
        ),
        ("spotify:track:", UriError::EmptyId),
        (
            "spotify:track:id?si=junk",
            UriError::InvalidId("id?si=junk".to_string()),
        ),
        (
            "spotify:track:two words",
            UriError::InvalidId("two words".to_string()),
        ),
        (
            "spotify:track:id/child",
            UriError::InvalidId("id/child".to_string()),
        ),
    ];

    for (input, expected) in cases {
        assert_eq!(ResourceUri::parse(input), Err(expected), "input: {input}");
    }
}

#[test]
fn canonical_uri_round_trips_through_output_interfaces() {
    let input = "spotify:episode:episode_1-.~";
    let uri = ResourceUri::parse(input).expect("canonical URI should parse");

    assert_eq!(uri.as_uri(), input);
    assert_eq!(input.parse::<ResourceUri>(), Ok(uri.clone()));
    assert!(uri.same(&uri.clone()));
}

#[test]
fn constructors_validate_bare_ids_and_emit_canonical_uris() {
    let generic = ResourceUri::new(UriScheme::spotify(), MediaKind::Album, "album-1")
        .expect("valid bare ID should construct");
    let spotify = ResourceUri::spotify(MediaKind::Track, "track_1")
        .expect("valid Spotify ID should construct");

    assert_eq!(generic.as_uri(), "spotify:album:album-1");
    assert_eq!(spotify.as_uri(), "spotify:track:track_1");
    assert_eq!(
        ResourceUri::spotify(MediaKind::Track, "track?si=junk"),
        Err(UriError::InvalidId("track?si=junk".to_string()))
    );
    assert_eq!(
        ResourceUri::new(UriScheme::spotify(), MediaKind::Playlist, ""),
        Err(UriError::EmptyId)
    );
}

#[test]
fn spotify_uri_or_id_preserves_canonical_uris_and_rejects_wrong_or_malformed_kinds() {
    assert_eq!(
        ResourceUri::spotify_from_uri_or_id(MediaKind::Playlist, "playlist-1")
            .unwrap()
            .as_uri(),
        "spotify:playlist:playlist-1"
    );
    assert_eq!(
        ResourceUri::spotify_from_uri_or_id(MediaKind::Playlist, "spotify:playlist:playlist-1")
            .unwrap()
            .as_uri(),
        "spotify:playlist:playlist-1"
    );
    assert!(matches!(
        ResourceUri::spotify_from_uri_or_id(MediaKind::Playlist, "spotify:track:track-1"),
        Err(UriError::UnexpectedKind { .. })
    ));
    assert_eq!(
        ResourceUri::spotify_from_uri_or_id(MediaKind::Playlist, "fake:playlist:playlist-1"),
        Err(UriError::UnsupportedScheme("fake".to_string()))
    );
    assert!(ResourceUri::spotify_from_uri_or_id(MediaKind::Playlist, "spotify:playlist:").is_err());
}

#[test]
fn typed_ids_keep_their_api_and_inherit_strict_uri_validation() {
    let track = TrackId::from_uri("spotify:track:track-1").expect("track URI should parse");
    let artist = ArtistId::from_uri("spotify:artist:artist-1").expect("artist URI should parse");
    let album = AlbumId::from_uri("spotify:album:album-1").expect("album URI should parse");
    let playlist =
        PlaylistId::from_uri("spotify:playlist:playlist-1").expect("playlist URI should parse");

    assert_eq!(track.as_str(), "track-1");
    assert_eq!(track.to_uri(), "spotify:track:track-1");
    assert_eq!(artist.to_uri(), "spotify:artist:artist-1");
    assert_eq!(album.to_uri(), "spotify:album:album-1");
    assert_eq!(playlist.to_uri(), "spotify:playlist:playlist-1");
    assert!(TrackId::from_uri("spotify:artist:track-1").is_none());
    assert!(TrackId::from_uri("spotify:track:track-1?si=junk").is_none());
    assert!(TrackId::from_uri("spotify:track:two words").is_none());
}

#[test]
fn unvalidated_typed_ids_need_not_come_back() {
    let odd = TrackId::new("a:b");
    assert_eq!(odd.to_uri(), "spotify:track:a:b");
    assert!(TrackId::from_uri(&odd.to_uri()).is_none());
    let plain = TrackId::new("a-b");
    assert_eq!(TrackId::from_uri(&plain.to_uri()), Some(plain));
    assert!(AlbumId::from_uri("fake:album:a").is_none());
    assert_eq!(ArtistId::new("x").as_str(), "x");
    assert_eq!(PlaylistId::new("x").as_str(), "x");
}

#[test]
fn schemes_and_errors_are_spelled_out() {
    assert_eq!(
        UriScheme::new("Bad"),
        Err(UriSchemeError {
            value: "Bad".to_string()
        })
    );
    assert_eq!(
        UriScheme::new("Bad").unwrap_err().message(),
        "invalid URI scheme `Bad`; expected lowercase ASCII letters, digits, or hyphens"
    );
    assert!(UriScheme::new("").is_err());
    assert!(UriScheme::new("-a").is_err());
    assert_eq!("a-1".parse::<UriScheme>().unwrap().label(), "a-1");
    assert_eq!(
        UriError::InvalidShape.message(),
        "resource URI must have the form <scheme>:<kind>:<id>"
    );
    assert_eq!(
        UriError::UnsupportedScheme("x".to_string()).message(),
        "unsupported resource URI scheme `x`"
    );
    assert_eq!(
        UriError::UnsupportedKind("x".to_string()).message(),
        "unsupported resource kind `x`"
    );
    assert_eq!(
        UriError::UnexpectedKind {
            expected: MediaKind::Track,
            actual: MediaKind::Album
        }
        .message(),
        "expected resource kind `track`, got `album`"
    );
    assert_eq!(
        UriError::EmptyId.message(),
        "resource URI id must not be empty"
    );
    assert_eq!(
        UriError::InvalidId("x y".to_string()).message(),
        "resource URI id `x y` is not canonical"
    );
}
