use spotuify::analytics::{
    action_finished_event, hex_text, listen_qualified_event, normalize_search_query,
    playback_completed_event, playback_paused_event, playback_resumed_event,
    playback_skipped_event, playback_started_event, qualify_listen, redact_spotify_path,
    search_event_with_hash, search_performed_event, sha256_hex, spotify_api_finished_event, AnalyticsEvent,
    AnalyticsEventKind, AnalyticsSource, BackendLabel, HabitWindow, JsonField, JsonValue,
    MeasurementKind, PlaybackSource, SkipReason, QUALIFICATION_RULE_VERSION,
};

fn value<'a>(event: &'a AnalyticsEvent, key: &str) -> &'a JsonValue {
    &event
        .payload
        .iter()
        .find(|field| field.key == key)
        .expect("the payload holds the key")
        .value
}

fn number(n: i64) -> JsonValue {
    JsonValue::Number(n.to_string())
}

fn text(s: &str) -> JsonValue {
    JsonValue::Text(s.to_string())
}

#[test]
fn digests_of_known_texts() {
    assert_eq!(
        sha256_hex("abc"),
        "ba7816bf8f01cfea414140de5dae2223b00361a396177a9cb410ff61f20015ad"
    );
    assert_eq!(
        sha256_hex(""),
        "e3b0c44298fc1c149afbf4c8996fb92427ae41e4649b934ca495991b7852b855"
    );
    assert_eq!(hex_text(&[0, 15, 16, 255]), "000f10ff");
}

#[test]
fn queries_are_normalized() {
    assert_eq!(
        normalize_search_query("  Luther\tVandross \n"),
        "luther vandross"
    );
    assert_eq!(normalize_search_query(" "), "");
    assert_eq!(normalize_search_query("ÄB c"), "Äb c");
}

#[test]
fn searches_share_a_digest_however_they_are_typed() {
    let a = search_performed_event(AnalyticsSource::Tui, "Luther  Vandross", 3, 41, 7);
    let b = search_performed_event(AnalyticsSource::Cli, " luther vandross", 3, 41, 7);
    assert_eq!(a.search_query_hash, b.search_query_hash);
    assert_eq!(a.search_query_hash, Some(sha256_hex("luther vandross")));
    assert_eq!(a.search_query.as_deref(), Some("Luther  Vandross"));
    assert_eq!(a.kind, AnalyticsEventKind::SearchPerformed);
    assert_eq!(a.occurred_at_ms, 7);
    assert_eq!(value(&a, "normalized_query"), &text("luther vandross"));
    assert_eq!(value(&a, "result_count"), &number(3));
    assert_eq!(value(&a, "latency_ms"), &number(41));
    let given = search_event_with_hash(AnalyticsSource::Tui, "A  b", "h".to_string(), 3, 41, 7);
    assert_eq!(given.search_query_hash.as_deref(), Some("h"));
    assert_eq!(value(&given, "normalized_query"), &text("a b"));
}

#[test]
fn paths_are_redacted() {
    assert_eq!(redact_spotify_path("/me"), "/me");
    assert_eq!(redact_spotify_path("/me?"), "/me");
    assert_eq!(
        redact_spotify_path("/search?q=secret&type=track&Market=SE"),
        "/search?q=<redacted>&type=track&Market=<redacted>"
    );
    assert_eq!(
        redact_spotify_path("/x?flag&ids=1,2&uri=u&uris=v"),
        "/x?ids=<redacted>&uri=<redacted>&uris=<redacted>"
    );
    assert_eq!(redact_spotify_path("/x?flag"), "/x");
    let once = redact_spotify_path("/search?q=a=b&limit=2");
    assert_eq!(once, "/search?q=<redacted>&limit=2");
    assert_eq!(redact_spotify_path(&once), once);
}

#[test]
fn listens_count_from_half_the_track_on() {
    let rule = qualify_listen(200_000, 100_000);
    assert!(rule.qualified);
    assert_eq!(rule.threshold_ms, 100_000);
    assert_eq!(rule.rule_version, QUALIFICATION_RULE_VERSION);
    assert!(!qualify_listen(200_000, 99_999).qualified);
    assert_eq!(qualify_listen(1_000_000, 0).threshold_ms, 240_000);
    assert!(qualify_listen(1_000_000, 240_000).qualified);
    assert_eq!(qualify_listen(40_000, 0).threshold_ms, 30_000);
    assert!(!qualify_listen(30_000, 30_000).qualified);
    assert!(qualify_listen(30_001, 30_000).qualified);
    assert!(!qualify_listen(-5, 100).qualified);
}

#[test]
fn api_calls_leave_events() {
    let event = spotify_api_finished_event(
        AnalyticsSource::SpotifyApi,
        "GET",
        "/search?q=x",
        Some(429),
        12,
        None,
        5,
    );
    assert_eq!(event.kind, AnalyticsEventKind::SpotifyApiFinished);
    assert_eq!(value(&event, "method"), &text("GET"));
    assert_eq!(value(&event, "path"), &text("/search?q=<redacted>"));
    assert_eq!(value(&event, "status"), &number(429));
    assert_eq!(value(&event, "elapsed_ms"), &number(12));
    assert_eq!(value(&event, "error_class"), &JsonValue::Null);
    assert_eq!(event.subject_uri, None);
}

#[test]
fn actions_are_written_into_their_payload() {
    let payload = vec![
        JsonField {
            key: "result".to_string(),
            value: JsonValue::Null,
        },
        JsonField {
            key: "other".to_string(),
            value: JsonValue::Bool(true),
        },
    ];
    let event = action_finished_event(
        AnalyticsSource::Cli,
        "play",
        Some("u"),
        "ok",
        Some(payload),
        5,
    );
    assert_eq!(event.payload.len(), 3);
    assert_eq!(value(&event, "result"), &text("ok"));
    assert_eq!(value(&event, "action"), &text("play"));
    assert_eq!(value(&event, "other"), &JsonValue::Bool(true));
    let event = action_finished_event(AnalyticsSource::Cli, "play", None, "ok", None, 5);
    assert_eq!(event.payload.len(), 2);
}

#[test]
fn playback_leaves_events() {
    let source = AnalyticsSource::Daemon;
    let event = playback_started_event(source, "u", 1, Some("d"), true, 5);
    assert_eq!(event.kind, AnalyticsEventKind::PlaybackStarted);
    assert_eq!(event.subject_uri.as_deref(), Some("u"));
    assert_eq!(value(&event, "device_id"), &text("d"));
    assert_eq!(value(&event, "private_session"), &JsonValue::Bool(true));
    let event = playback_paused_event(source, "u", -1, 5);
    assert_eq!(event.kind, AnalyticsEventKind::PlaybackPaused);
    assert_eq!(value(&event, "position_ms"), &number(-1));
    let event = playback_resumed_event(source, "u", i64::MIN, 5);
    assert_eq!(event.kind, AnalyticsEventKind::PlaybackResumed);
    assert_eq!(value(&event, "position_ms"), &number(i64::MIN));
    let event = playback_skipped_event(source, "u", 1, 2, SkipReason::UserNext, false, 5);
    assert_eq!(event.kind, AnalyticsEventKind::PlaybackSkipped);
    assert_eq!(
        value(&event, "skip_reason"),
        &text(SkipReason::UserNext.label())
    );
    assert_eq!(value(&event, "elapsed_ms"), &number(2));
    let event =
        playback_completed_event(source, "u", 3, 4, "0.5", qualify_listen(60_000, 40_000), false, 5);
    assert_eq!(event.kind, AnalyticsEventKind::PlaybackCompleted);
    assert_eq!(
        value(&event, "completion_ratio"),
        &JsonValue::Number("0.5".to_string())
    );
    assert_eq!(value(&event, "qualified"), &JsonValue::Bool(true));
    assert_eq!(value(&event, "qualification_threshold_ms"), &number(30_000));
    let event = listen_qualified_event(source, "u", 3, 4, None, Some("album"), 5);
    assert_eq!(event.kind, AnalyticsEventKind::ListenQualified);
    assert_eq!(value(&event, "artist_uri"), &JsonValue::Null);
    assert_eq!(value(&event, "album_uri"), &text("album"));
}

#[test]
fn labels_are_read_back() {
    for kind in [
        AnalyticsEventKind::ActionFinished,
        AnalyticsEventKind::SearchPerformed,
        AnalyticsEventKind::SearchResultSelected,
        AnalyticsEventKind::PlaybackStarted,
        AnalyticsEventKind::PlaybackPaused,
        AnalyticsEventKind::PlaybackResumed,
        AnalyticsEventKind::PlaybackSkipped,
        AnalyticsEventKind::PlaybackCompleted,
        AnalyticsEventKind::ListenQualified,
        AnalyticsEventKind::SpotifyApiFinished,
    ] {
        assert_eq!(kind.label().parse::<AnalyticsEventKind>(), Ok(kind));
    }
    for source in [
        AnalyticsSource::Cli,
        AnalyticsSource::Tui,
        AnalyticsSource::SpotifyApi,
        AnalyticsSource::Daemon,
    ] {
        assert_eq!(source.label().parse::<AnalyticsSource>(), Ok(source));
    }
    assert!("x".parse::<AnalyticsEventKind>().is_err());
    assert!("x".parse::<AnalyticsSource>().is_err());
    assert_eq!(AnalyticsEventKind::PlaybackStarted.label(), "playback_started");
    assert_eq!(AnalyticsSource::SpotifyApi.label(), "spotify_api");
    assert_eq!(SkipReason::SessionDied.label(), "session_died");
    assert_eq!(PlaybackSource::Radio.label(), "radio");
    assert_eq!(BackendLabel::Embedded.label(), "embedded");
    assert_eq!(
        MeasurementKind::ObservedPlayback.label(),
        "observed_playback"
    );
    assert_eq!(HabitWindow::Week.label(), "week");
}
