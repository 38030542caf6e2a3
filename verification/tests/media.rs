use spotuify::lyrics::{
    active_lyric_line_index, LyricLine, LyricsProvider, LyricsProviderParseError,
};
use spotuify::media::{
    AlbumGroup, ArtistRef, Device, ItemSource, MediaItem, MediaKind, MediaKindParseError, Page,
    Playback, Playlist, Queue, RepeatMode, RepeatModeParseError, PREMIUM_REQUIRED_POLICY_REASON,
};
use spotuify::release_date::ReleaseDate;

#[test]
fn media_kind_round_trips_through_json_lowercase() {
    let kinds = [
        MediaKind::Track,
        MediaKind::Episode,
        MediaKind::Show,
        MediaKind::Album,
        MediaKind::Artist,
        MediaKind::Playlist,
    ];
    for kind in kinds {
        let encoded = serde_json::to_string(kind.label()).expect("label should serialize");
        let decoded: String = serde_json::from_str(&encoded).expect("label should deserialize");
        assert_eq!(MediaKind::from_label(&decoded), Ok(kind));
        assert_eq!(encoded.trim_matches('"'), kind.label());
        assert_eq!(kind.label().to_lowercase(), kind.label());
        assert_eq!(
            kind.label().parse::<MediaKind>().expect("label parses"),
            kind
        );
    }
}

#[test]
fn unknown_media_kinds_are_named() {
    let error = MediaKind::from_label("video").unwrap_err();
    assert_eq!(
        error,
        MediaKindParseError {
            value: "video".to_string()
        }
    );
    assert_eq!(error.message(), "unknown media kind `video`");
    assert_eq!(MediaKind::default(), MediaKind::Track);
}

#[test]
fn release_date_preserves_precision_and_legacy_scalar_wire_shape() {
    let year = "1999".parse::<ReleaseDate>().expect("year precision");
    let month = "1999-07".parse::<ReleaseDate>().expect("month precision");
    let day = "2000-02-29".parse::<ReleaseDate>().expect("leap day");

    assert_eq!((year.year(), year.month(), year.day()), (1999, None, None));
    assert_eq!(
        (month.year(), month.month(), month.day()),
        (1999, Some(7), None)
    );
    assert_eq!(day.text(), "2000-02-29");
    assert_eq!(serde_json::to_string(&day.text()).unwrap(), "\"2000-02-29\"");
    assert_eq!(
        serde_json::from_str::<String>("\"1999-07\"")
            .unwrap()
            .parse::<ReleaseDate>()
            .unwrap(),
        month
    );
    assert!("2001-02-29".parse::<ReleaseDate>().is_err());
    assert!("2024-13".parse::<ReleaseDate>().is_err());
    assert!("2024-1-01".parse::<ReleaseDate>().is_err());
}

#[test]
fn media_item_release_date_field_decodes_leniently_to_none() {
    assert_eq!(
        ReleaseDate::parse_lenient(Some("1999-07-21")),
        Some("1999-07-21".parse::<ReleaseDate>().unwrap())
    );
    assert_eq!(ReleaseDate::parse_lenient(Some("0000-00-00")), None);
    assert_eq!(ReleaseDate::parse_lenient(None), None);
}

#[test]
fn release_dates_say_what_is_wrong_with_them() {
    let reason = |text: &str| text.parse::<ReleaseDate>().unwrap_err().reason;
    assert_eq!(reason(""), "expected YYYY, YYYY-MM, or YYYY-MM-DD");
    assert_eq!(reason("2024-01-01-01"), "expected YYYY, YYYY-MM, or YYYY-MM-DD");
    assert_eq!(reason("20x4"), "date components must be decimal numbers");
    // Widths are counted in bytes.
    assert_eq!(reason("é20"), "date components must be decimal numbers");
    assert_eq!(reason("2024-00"), "month must be between 01 and 12");
    assert_eq!(reason("2023-02-29"), "date is not valid");
    assert_eq!(reason("1900-02-29"), "date is not valid");
    assert!("1600-02-29".parse::<ReleaseDate>().is_ok());
    // A sign is no part of a date.
    assert_eq!(reason("+200"), "date components must be decimal numbers");
    assert_eq!(reason("+999"), "date components must be decimal numbers");
    assert_eq!(reason("2024-+1"), "date components must be decimal numbers");
    assert_eq!(reason("2024-01-+1"), "date components must be decimal numbers");
    assert_eq!(ReleaseDate::parse_lenient(Some("+999")), None);

    let error = ReleaseDate::new(10_000, Some(1), Some(2)).unwrap_err();
    assert_eq!(error.reason, "year must use at most four digits");
    assert_eq!(error.value, "10000-01-02");
    let error = ReleaseDate::new(1999, None, Some(2)).unwrap_err();
    assert_eq!(error.reason, "day requires a month");
    assert_eq!(
        error.message(),
        "invalid release date `1999-??-02`: day requires a month"
    );
    assert_eq!(ReleaseDate::new(7, Some(3), None).unwrap().text(), "0007-03");
}

#[test]
fn every_day_of_some_years_round_trips() {
    let mut days = 0;
    for year in [1u16, 4, 100, 400, 1999, 2000, 2023, 2024, 9999] {
        for month in 0..=13u8 {
            for day in 0..=32u8 {
                if let Ok(date) = ReleaseDate::new(year, Some(month), Some(day)) {
                    days += 1;
                    assert_eq!(date.text().parse::<ReleaseDate>(), Ok(date));
                }
            }
        }
    }
    assert_eq!(days, 9 * 365 + 4);
}

#[test]
fn album_group_preserves_unknown_provider_values_on_scalar_wire() {
    let known = AlbumGroup::from_name("appears_on");
    let other = AlbumGroup::from_name("soundtrack");

    assert_eq!(known, AlbumGroup::AppearsOn);
    assert_eq!(other, AlbumGroup::Other("soundtrack".to_string()));
    assert_eq!(
        serde_json::to_string(known.as_str()).unwrap(),
        "\"appears_on\""
    );
    assert_eq!(
        AlbumGroup::from_name(&serde_json::from_str::<String>("\"soundtrack\"").unwrap()),
        other
    );
    assert_eq!(AlbumGroup::from("soundtrack".to_string()), other);
    assert_eq!(AlbumGroup::from("appears_on".to_string()), known);
    assert_eq!(AlbumGroup::from_name("album").clone(), AlbumGroup::Album);
    assert_eq!(AlbumGroup::from_name("single").as_str(), "single");
    assert_eq!(AlbumGroup::from_name("compilation"), AlbumGroup::Compilation);
}

#[test]
fn item_source_is_typed_in_core_and_remains_a_scalar_on_wire() {
    let provider = ItemSource::from_name("provider-a");
    assert_eq!(provider, ItemSource::Provider("provider-a".to_string()));
    assert_eq!(ItemSource::from("provider-a".to_string()), provider);
    assert_eq!(ItemSource::from("local".to_string()), ItemSource::Local);
    assert_eq!(ItemSource::from_name("mercury"), ItemSource::Mercury);
    assert_eq!(ItemSource::from_name("local"), ItemSource::Local);
    assert_eq!(
        serde_json::to_string(provider.as_str()).unwrap(),
        "\"provider-a\""
    );
    assert_eq!(
        ItemSource::from_name(&serde_json::from_str::<String>("\"custom-provider\"").unwrap()),
        ItemSource::Provider("custom-provider".to_string())
    );
    assert_eq!(ItemSource::Mercury.clone().as_str(), "mercury");
    assert_eq!(ItemSource::Local.as_str(), "local");
}

#[test]
fn repeat_mode_round_trips_and_defaults_off() {
    for mode in [RepeatMode::Off, RepeatMode::Context, RepeatMode::Track] {
        assert_eq!(RepeatMode::parse(mode.label()).unwrap(), mode);
        let encoded = serde_json::to_string(mode.label()).unwrap();
        let decoded = serde_json::from_str::<String>(&encoded).unwrap();
        assert_eq!(RepeatMode::parse_lenient(&decoded), mode);
    }
    assert_eq!(RepeatMode::default(), RepeatMode::Off);
    assert!(RepeatMode::parse("loop").is_err());
    let error = RepeatMode::parse("loop").unwrap_err();
    assert_eq!(
        error,
        RepeatModeParseError {
            value: "loop".to_string()
        }
    );
    assert_eq!(
        error.message(),
        "repeat mode `loop` invalid (expected off, context, track)"
    );
}

#[test]
fn repeat_mode_decodes_legacy_junk_to_off_without_failing_the_frame() {
    for junk in ["\"one\"", "\"on\"", "\"OFF\"", "\"\"", "\"track \""] {
        let text = serde_json::from_str::<String>(junk).unwrap();
        assert_eq!(
            RepeatMode::parse_lenient(&text),
            RepeatMode::Off,
            "junk value {junk} should decode to Off"
        );
    }
    assert_eq!(RepeatMode::parse_lenient("track"), RepeatMode::Track);
    assert_eq!(
        serde_json::to_string(RepeatMode::Context.label()).unwrap(),
        "\"context\""
    );
}

#[test]
fn lyrics_provider_round_trips_through_label_display_parse_and_json() {
    let providers = [LyricsProvider::Native, LyricsProvider::Lrclib];
    for provider in providers {
        let encoded = serde_json::to_string(provider.label()).expect("label should serialize");
        let decoded: String = serde_json::from_str(&encoded).expect("label should deserialize");
        assert_eq!(LyricsProvider::from_label(&decoded), Some(provider));
        assert_eq!(encoded.trim_matches('"'), provider.label());
        assert_eq!(
            provider
                .label()
                .parse::<LyricsProvider>()
                .expect("label parses"),
            provider
        );
    }
}

#[test]
fn native_provider_preserves_legacy_wire_and_accepts_neutral_alias() {
    assert_eq!(
        serde_json::to_string(LyricsProvider::Native.label()).unwrap(),
        "\"spotify-mercury\""
    );
    assert_eq!(
        LyricsProvider::from_label(&serde_json::from_str::<String>("\"native\"").unwrap()).unwrap(),
        LyricsProvider::Native
    );
    assert_eq!(
        "spotify".parse::<LyricsProvider>().unwrap(),
        LyricsProvider::Native
    );
    let error = "genius".parse::<LyricsProvider>().unwrap_err();
    assert_eq!(
        error,
        LyricsProviderParseError {
            value: "genius".to_string()
        }
    );
    assert_eq!(error.message(), "unknown lyrics provider `genius`");
    assert_eq!(LyricsProvider::from_label("genius"), None);
}

#[test]
fn playback_default_is_paused_empty() {
    let p = Playback::default();
    assert!(p.item.is_none());
    assert!(p.device.is_none());
    assert!(!p.is_playing);
    assert_eq!(p.progress_ms, 0);
}

#[test]
fn active_lyric_line_index_uses_offset_adjusted_position() {
    let lines = vec![lyric_line(1_000), lyric_line(2_000), lyric_line(5_000)];

    assert_eq!(active_lyric_line_index(&lines, 2_500, 0), Some(1));
    assert_eq!(active_lyric_line_index(&lines, 1_500, 700), Some(1));
    assert_eq!(active_lyric_line_index(&lines, 2_500, -700), Some(0));
}

#[test]
fn lyric_lines_at_the_edges() {
    let lines = vec![lyric_line(1_000), lyric_line(2_000), lyric_line(2_000)];
    assert_eq!(active_lyric_line_index(&[], 0, 0), None);
    assert_eq!(active_lyric_line_index(&lines, 0, 0), Some(0));
    assert_eq!(active_lyric_line_index(&lines, 2_000, 0), Some(2));
    assert_eq!(active_lyric_line_index(&lines, 5, i64::MIN), Some(0));
    assert_eq!(active_lyric_line_index(&lines, u64::MAX, i64::MAX), Some(2));
}

fn lyric_line(start_ms: u64) -> LyricLine {
    LyricLine {
        start_ms,
        text: start_ms.to_string(),
        is_rtl: false,
    }
}

#[test]
fn copies_equal_what_they_copy() {
    let item = MediaItem {
        id: Some("abc".to_string()),
        uri: "provider:track:abc".to_string(),
        name: "Song".to_string(),
        subtitle: "Artist".to_string(),
        context: "Album".to_string(),
        duration_ms: 1000,
        image_url: Some("image".to_string()),
        kind: MediaKind::Episode,
        source: Some(ItemSource::Mercury),
        freshness: Some("fresh".to_string()),
        explicit: Some(true),
        is_playable: Some(false),
        album: Some("Greatest Hits".to_string()),
        added_at_ms: Some(1_700_000_000_000),
        resume_position_ms: Some(5),
        fully_played: Some(true),
        release_date: Some("1999".parse().unwrap()),
        album_group: Some(AlbumGroup::Single),
        in_library: Some(true),
        album_uri: Some("provider:album:a".to_string()),
        artists: vec![ArtistRef {
            name: "Artist".to_string(),
            uri: "provider:artist:a".to_string(),
        }],
        genre: Some("pop".to_string()),
    };
    assert_eq!(item.clone(), item);
    let queue = Queue {
        currently_playing: Some(item.clone()),
        items: vec![item.clone(), MediaItem::default()],
        session_active: true,
        as_of_ms: 7,
    };
    assert_eq!(queue.clone(), queue);
    let device = Device {
        id: Some("dev1".to_string()),
        name: "Phone".to_string(),
        kind: "smartphone".to_string(),
        is_active: false,
        is_restricted: false,
        volume_percent: Some(50),
        supports_volume: true,
    };
    let playback = Playback {
        item: Some(item),
        device: Some(device),
        is_playing: true,
        progress_ms: 9,
        shuffle: true,
        repeat: RepeatMode::Track,
        ..Default::default()
    };
    assert_eq!(playback.clone(), playback);
    let playlist = Playlist {
        id: "mix".to_string(),
        name: "Mix".to_string(),
        owner: "Owner".to_string(),
        tracks_total: 3,
        image_url: None,
        version_token: Some("version-1".to_string()),
    };
    assert_eq!(playlist.clone(), playlist);
    let page = Page {
        items: vec!["one".to_string(), "two".to_string()],
        total: 12,
        offset: 5,
    };
    assert_eq!(page.clone(), page);
    assert_eq!(
        PREMIUM_REQUIRED_POLICY_REASON,
        "account tier does not permit local playback"
    );
}
