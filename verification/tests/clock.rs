use spotuify::clock::{
    merge_missing_item_metadata, PlaybackClock, PlayerEvent, NO_ACTIVE_SESSION_CONFIRM_MS,
};
use spotuify::media::{Device, MediaItem, Playback, PlaybackStateSource, RepeatMode};
use spotuify::uri::ResourceUri;

fn track(uri: &str, duration_ms: u64) -> MediaItem {
    MediaItem {
        uri: uri.to_string(),
        duration_ms,
        ..Default::default()
    }
}

fn named_track(uri: &str) -> MediaItem {
    MediaItem {
        uri: uri.to_string(),
        name: "Known Track".to_string(),
        subtitle: "Known Artist".to_string(),
        context: "Known Album".to_string(),
        duration_ms: 123_000,
        image_url: Some("https://i.scdn.co/image/test".to_string()),
        ..Default::default()
    }
}

fn started(uri: &str, position_ms: u32) -> PlayerEvent {
    PlayerEvent::PlaybackStarted {
        uri: ResourceUri::parse(uri).unwrap(),
        position_ms,
    }
}

#[test]
fn clock_advances_while_playing() {
    let mut clock = PlaybackClock::new(0);
    clock.apply_player_event(&started("spotify:track:a", 10_000), 0, 1);
    let snap = clock.snapshot(50);
    assert!(snap.is_playing);
    assert!(
        snap.progress_ms >= 10_040 && snap.progress_ms <= 10_200,
        "expected ~10_050, got {}",
        snap.progress_ms
    );
    assert_eq!(snap.progress_ms, 10_050);
}

#[test]
fn clock_does_not_advance_while_paused() {
    let mut clock = PlaybackClock::new(0);
    clock.apply_player_event(&started("spotify:track:a", 5_000), 0, 1);
    clock.apply_player_event(&PlayerEvent::PlaybackPaused, 0, 2);
    let after_pause = clock.snapshot(0).progress_ms;
    let later = clock.snapshot(60).progress_ms;
    assert_eq!(after_pause, later, "paused progress must not advance");
}

#[test]
fn clock_pause_freezes_at_current_progress() {
    let mut clock = PlaybackClock::new(0);
    clock.apply_player_event(&started("spotify:track:a", 10_000), 0, 1);
    clock.apply_player_event(&PlayerEvent::PlaybackPaused, 40, 2);
    let snap = clock.snapshot(40);
    assert!(!snap.is_playing);
    assert!(snap.progress_ms >= 10_030, "got {}", snap.progress_ms);
}

#[test]
fn clock_resume_uses_fresh_base_instant() {
    let mut clock = PlaybackClock::new(0);
    clock.apply_player_event(&started("spotify:track:a", 0), 0, 1);
    clock.apply_player_event(&PlayerEvent::PlaybackPaused, 0, 2);
    let frozen = clock.snapshot(0).progress_ms;
    clock.apply_player_event(&PlayerEvent::PlaybackResumed, 200, 3);
    let after = clock.snapshot(240).progress_ms;
    let advanced = after.saturating_sub(frozen);
    assert!(
        advanced >= 30 && advanced <= 40 + 50,
        "expected resumed progress near 40ms, advanced {advanced}ms"
    );
}

#[test]
fn clock_track_change_resets_progress() {
    let mut clock = PlaybackClock::new(0);
    clock.apply_player_event(&started("spotify:track:a", 30_000), 0, 1);
    clock.apply_player_event(
        &PlayerEvent::TrackChanged {
            uri: ResourceUri::parse("spotify:track:b").unwrap(),
            position_ms: 0,
        },
        0,
        2,
    );
    let snap = clock.snapshot(0);
    assert_eq!(
        snap.item.as_ref().map(|i| i.uri.as_str()),
        Some("spotify:track:b")
    );
    assert!(snap.progress_ms < 200);
}

#[test]
fn clock_enriches_player_event_stub_for_same_uri() {
    let mut clock = PlaybackClock::new(0);
    clock.apply_player_event(&started("spotify:track:a", 10_000), 0, 1);

    assert!(clock.enrich_current_item(&named_track("spotify:track:a")));
    let snap = clock.snapshot(0);
    let item = snap.item.expect("current item");
    assert_eq!(item.uri, "spotify:track:a");
    assert_eq!(item.name, "Known Track");
    assert_eq!(item.subtitle, "Known Artist");
    assert_eq!(item.context, "Known Album");
    assert_eq!(item.duration_ms, 123_000);
    assert_eq!(
        item.image_url.as_deref(),
        Some("https://i.scdn.co/image/test")
    );
    assert_eq!(snap.source, Some(PlaybackStateSource::PlayerEvent));
    assert!(snap.is_playing);
    // A second sample of the same adds nothing.
    assert!(!clock.enrich_current_item(&named_track("spotify:track:a")));
}

#[test]
fn clock_enrichment_ignores_different_uri() {
    let mut clock = PlaybackClock::new(0);
    clock.apply_player_event(&started("spotify:track:a", 10_000), 0, 1);

    assert!(!clock.enrich_current_item(&named_track("spotify:track:b")));
    let snap = clock.snapshot(0);
    let item = snap.item.expect("current item");
    assert_eq!(item.uri, "spotify:track:a");
    assert!(item.name.is_empty());
}

#[test]
fn clock_position_tick_below_threshold_does_not_rebase() {
    let mut clock = PlaybackClock::new(0);
    clock.apply_player_event(&started("spotify:track:a", 10_000), 0, 1);
    let before = clock.snapshot(50).progress_ms;
    clock.apply_player_event(
        &PlayerEvent::PositionTick {
            position_ms: before as u32 + 50,
        },
        50,
        2,
    );
    let after = clock.snapshot(50).progress_ms;
    assert!((after as i64 - before as i64).abs() < 200);
    assert_eq!(after, before);
    assert_eq!(clock.snapshot(50).sampled_at_ms, Some(1));
}

#[test]
fn clock_position_tick_above_threshold_rebases() {
    let mut clock = PlaybackClock::new(0);
    clock.apply_player_event(&started("spotify:track:a", 10_000), 0, 1);
    clock.apply_player_event(
        &PlayerEvent::PositionTick {
            position_ms: 30_000,
        },
        0,
        2,
    );
    let snap = clock.snapshot(0);
    assert!(snap.progress_ms >= 29_900 && snap.progress_ms <= 30_300);
}

#[test]
fn drift_of_exactly_the_threshold_is_tolerated() {
    let mut clock = PlaybackClock::new(0);
    clock.apply_player_event(&started("spotify:track:a", 10_000), 0, 1);
    clock.apply_player_event(&PlayerEvent::PositionTick { position_ms: 8_500 }, 0, 2);
    assert_eq!(clock.current_progress_ms(0), 10_000);
    clock.apply_player_event(&PlayerEvent::PositionTick { position_ms: 8_499 }, 0, 3);
    assert_eq!(clock.current_progress_ms(0), 8_499);
}

#[test]
fn clock_web_api_poll_rejected_when_mutation_seq_advanced() {
    let mut clock = PlaybackClock::new(0);
    let pb = Playback {
        item: Some(track("spotify:track:a", 200_000)),
        is_playing: true,
        progress_ms: 50_000,
        ..Default::default()
    };
    let applied = clock.apply_web_api_poll(&pb, 5, 6, 1, None, 0);
    assert!(!applied);
    assert!(
        clock.snapshot(0).item.is_none(),
        "clock must not be touched"
    );
}

#[test]
fn clock_web_api_poll_ignores_transient_empty_snapshot() {
    let mut clock = PlaybackClock::new(0);
    let playing = Playback {
        item: Some(track("spotify:track:a", 200_000)),
        is_playing: true,
        progress_ms: 50_000,
        ..Default::default()
    };
    clock.apply_command_result(&playing, 1, 0);

    let empty = Playback::default();
    let applied = clock.apply_web_api_poll(&empty, 1, 1, 5_000, None, 0);

    assert!(
        !applied,
        "first empty Spotify poll must be treated as transient"
    );
    let snap = clock.snapshot(0);
    assert_eq!(
        snap.item.as_ref().map(|item| item.uri.as_str()),
        Some("spotify:track:a")
    );
    assert!(
        snap.is_playing,
        "transient empty poll must not stop playback"
    );
}

#[test]
fn clock_web_api_poll_remembers_item_after_confirmed_no_active_session() {
    let mut clock = PlaybackClock::new(0);
    let playing = Playback {
        item: Some(track("spotify:track:a", 200_000)),
        is_playing: true,
        progress_ms: 50_000,
        ..Default::default()
    };
    clock.apply_command_result(&playing, 1, 0);

    let empty = Playback::default();
    assert!(!clock.apply_web_api_poll(&empty, 1, 1, 5_000, None, 0));
    let applied = clock.apply_web_api_poll(
        &empty,
        1,
        1,
        5_000 + NO_ACTIVE_SESSION_CONFIRM_MS,
        None,
        0,
    );

    assert!(applied, "confirmed no-active-session should stop playback");
    let snap = clock.snapshot(0);
    assert_eq!(
        snap.item.as_ref().map(|item| item.uri.as_str()),
        Some("spotify:track:a")
    );
    assert!(snap.device.is_none());
    assert!(!snap.is_playing);
    assert!(snap.progress_ms >= 50_000);
    assert_eq!(snap.source, Some(PlaybackStateSource::RecentFallback));

    assert!(!clock.apply_web_api_poll(
        &empty,
        1,
        1,
        5_000 + (NO_ACTIVE_SESSION_CONFIRM_MS * 2),
        None,
        0,
    ));
    let snap = clock.snapshot(0);
    assert_eq!(
        snap.item.as_ref().map(|item| item.uri.as_str()),
        Some("spotify:track:a")
    );
    assert_eq!(snap.source, Some(PlaybackStateSource::RecentFallback));
}

#[test]
fn clock_web_api_poll_clobbered_by_player_event_priority() {
    let mut clock = PlaybackClock::new(0);
    clock.apply_player_event(&started("spotify:track:a", 1_000), 0, 10);
    let pb = Playback {
        item: Some(track("spotify:track:a", 200_000)),
        is_playing: true,
        progress_ms: 5_000,
        ..Default::default()
    };
    let applied = clock.apply_web_api_poll(&pb, 1, 1, 9, None, 0);
    assert!(
        applied,
        "same-URI poll should report metadata enrichment as a clock change"
    );
    let snap = clock.snapshot(0);
    assert!(snap.progress_ms < 3_000, "player event should still win");
    assert_eq!(
        snap.item.as_ref().map(|item| item.duration_ms),
        Some(200_000),
        "same-URI poll may fill metadata without rebasing progress"
    );
    // The same poll once more fills nothing, and an outdated sample gives way.
    assert!(!clock.apply_web_api_poll(&pb, 1, 1, 1_510, None, 0));
    assert!(clock.apply_web_api_poll(&pb, 1, 1, 1_511, None, 0));
    assert_eq!(clock.snapshot(0).progress_ms, 5_000);
}

#[test]
fn clock_uri_change_always_rebases_even_from_web_api() {
    let mut clock = PlaybackClock::new(0);
    clock.apply_player_event(&started("spotify:track:a", 50_000), 0, 1);
    let pb = Playback {
        item: Some(track("spotify:track:b", 200_000)),
        is_playing: true,
        progress_ms: 0,
        ..Default::default()
    };
    let applied = clock.apply_web_api_poll(&pb, 7, 7, 2, None, 0);
    assert!(applied);
    assert_eq!(
        clock.snapshot(0).item.as_ref().map(|i| i.uri.as_str()),
        Some("spotify:track:b")
    );
}

#[test]
fn clock_clamps_to_track_duration() {
    let mut clock = PlaybackClock::new(0);
    let pb = Playback {
        item: Some(track("spotify:track:a", 1_000)),
        is_playing: true,
        progress_ms: 900,
        ..Default::default()
    };
    clock.apply_command_result(&pb, 1, 0);
    let snap = clock.snapshot(300);
    assert_eq!(snap.progress_ms, 1_000, "must clamp to duration_ms");
}

#[test]
fn clock_seek_reanchors_progress() {
    let mut clock = PlaybackClock::new(0);
    clock.apply_player_event(&started("spotify:track:a", 1_000), 0, 1);
    clock.apply_seek(60_000, 2, 0);
    let snap = clock.snapshot(0);
    assert!(snap.progress_ms >= 60_000 && snap.progress_ms < 60_500);
}

#[test]
fn clock_snapshot_carries_source_and_sample() {
    let mut clock = PlaybackClock::new(0);
    let pb = Playback {
        item: Some(track("spotify:track:a", 100_000)),
        is_playing: true,
        progress_ms: 10_000,
        ..Default::default()
    };
    clock.apply_command_result(&pb, 42, 0);
    let snap = clock.snapshot(0);
    assert_eq!(snap.source, Some(PlaybackStateSource::CommandResult));
    assert_eq!(snap.sampled_at_ms, Some(42));
}

fn device(id: &str, volume: Option<u8>) -> Device {
    Device {
        id: Some(id.to_string()),
        name: "spotuify-test".to_string(),
        kind: "Speaker".to_string(),
        is_active: true,
        is_restricted: false,
        volume_percent: volume,
        supports_volume: true,
    }
}

#[test]
fn apply_device_volume_seeds_device_when_absent() {
    let mut clock = PlaybackClock::new(0);
    assert!(clock.snapshot(0).device.is_none());
    clock.apply_device_volume(60, || Some(device("dev-embedded", Some(60))), 7);
    let snap = clock.snapshot(0);
    assert_eq!(
        snap.device.as_ref().and_then(|d| d.volume_percent),
        Some(60)
    );
    assert_eq!(
        snap.device.as_ref().and_then(|d| d.id.as_deref()),
        Some("dev-embedded")
    );
}

#[test]
fn apply_device_volume_updates_existing_device_in_place() {
    let mut clock = PlaybackClock::new(0);
    let pb = Playback {
        item: Some(track("spotify:track:a", 100_000)),
        device: Some(device("dev-embedded", Some(40))),
        is_playing: true,
        progress_ms: 1_000,
        ..Default::default()
    };
    clock.apply_command_result(&pb, 1, 0);
    let mut seed_called = false;
    clock.apply_device_volume(
        75,
        || {
            seed_called = true;
            None
        },
        2,
    );
    assert!(!seed_called, "seed must not run");
    let snap = clock.snapshot(0);
    assert_eq!(
        snap.device.as_ref().and_then(|d| d.volume_percent),
        Some(75)
    );
    assert_eq!(
        snap.device.as_ref().and_then(|d| d.id.as_deref()),
        Some("dev-embedded")
    );
}

#[test]
fn mark_audio_stalled_freezes_and_stops_when_playing() {
    let mut clock = PlaybackClock::new(0);
    clock.apply_player_event(&started("spotify:track:a", 5_000), 0, 1);
    assert!(clock.snapshot(0).is_playing);
    assert!(
        clock.mark_audio_stalled(0, 2),
        "should report a state change"
    );
    let snap = clock.snapshot(0);
    assert!(!snap.is_playing, "stall flips is_playing false");
    assert!(snap.item.is_some(), "track stays loaded, just not audible");
}

#[test]
fn mark_audio_stalled_noop_when_not_playing() {
    let mut clock = PlaybackClock::new(0);
    clock.apply_player_event(&started("spotify:track:a", 5_000), 0, 1);
    clock.apply_player_event(&PlayerEvent::PlaybackPaused, 0, 2);
    assert!(!clock.snapshot(0).is_playing);
    assert!(
        !clock.mark_audio_stalled(0, 3),
        "must not fight a legitimate pause"
    );
}

#[test]
fn mark_audio_stalled_overridden_by_later_player_event() {
    let mut clock = PlaybackClock::new(0);
    clock.apply_player_event(&started("spotify:track:a", 5_000), 0, 1);
    clock.mark_audio_stalled(0, 2);
    assert!(!clock.snapshot(0).is_playing);
    clock.apply_player_event(&PlayerEvent::PlaybackResumed, 0, 3);
    assert!(
        clock.snapshot(0).is_playing,
        "a real resume overrides the watchdog stall"
    );
}

#[test]
fn other_events_leave_the_clock_alone() {
    let mut clock = PlaybackClock::new(0);
    clock.apply_player_event(&started("spotify:track:a", 5_000), 0, 1);
    let before = clock.snapshot(10);
    for event in [
        PlayerEvent::Ready,
        PlayerEvent::Degraded,
        PlayerEvent::ProviderPolicy,
        PlayerEvent::SessionDisconnected,
        PlayerEvent::Failed,
        PlayerEvent::PreloadNext,
        PlayerEvent::VolumeChanged { percent: 3 },
    ] {
        clock.apply_player_event(&event, 5, 9);
    }
    assert_eq!(clock.snapshot(10), before);
}

#[test]
fn end_of_track_shows_the_end() {
    let mut clock = PlaybackClock::new(0);
    clock.apply_player_event(&started("spotify:track:a", 5_000), 0, 1);
    clock.enrich_current_item(&named_track("spotify:track:a"));
    clock.apply_player_event(&PlayerEvent::EndOfTrack, 10, 2);
    let snap = clock.snapshot(500);
    assert!(!snap.is_playing);
    assert_eq!(snap.progress_ms, 123_000);
}

#[test]
fn seeding_takes_the_snapshot_over() {
    let mut clock = PlaybackClock::new(0);
    let pb = Playback {
        item: Some(track("spotify:track:a", 100_000)),
        progress_ms: 10_000,
        shuffle: true,
        repeat: RepeatMode::Context,
        provider_timestamp_ms: Some(3),
        ..Default::default()
    };
    clock.seed_from_cache(pb, PlaybackStateSource::Cache, 17, 5);
    let snap = clock.snapshot(1_000);
    assert_eq!(snap.progress_ms, 10_000);
    assert_eq!(snap.source, Some(PlaybackStateSource::Cache));
    assert_eq!(snap.sampled_at_ms, Some(17));
    assert_eq!(snap.repeat, RepeatMode::Context);
    assert!(snap.shuffle);
    assert_eq!(snap.provider_timestamp_ms, Some(3));
}

#[test]
fn prepared_polls_match_what_is_applied() {
    let mut clock = PlaybackClock::new(0);
    let playing = Playback {
        item: Some(track("spotify:track:a", 200_000)),
        is_playing: true,
        progress_ms: 50_000,
        ..Default::default()
    };
    clock.apply_command_result(&playing, 1, 0);
    let empty = Playback::default();
    assert_eq!(
        clock.prepare_web_api_poll(&playing, 2, None, 10),
        Some(playing.clone())
    );
    assert_eq!(clock.prepare_web_api_poll(&empty, 5_000, Some(8), 10), None);
    assert_eq!(clock.prepare_web_api_poll(&empty, 14_999, Some(8), 10), None);
    let candidate = clock
        .prepare_web_api_poll(&empty, 15_000, Some(8), 10)
        .expect("confirmed silence gives a candidate");
    assert!(clock.snapshot(10).is_playing, "preparing shows nothing");
    assert!(clock.apply_web_api_poll(&empty, 1, 1, 15_000, Some(8), 10));
    assert_eq!(clock.snapshot(99), candidate);
    assert_eq!(candidate.progress_ms, 50_010);
}

#[test]
fn filling_metadata_keeps_what_is_known() {
    let mut target = named_track("spotify:track:a");
    let mut source = named_track("spotify:track:a");
    source.name = "Other".to_string();
    source.genre = Some("pop".to_string());
    assert!(merge_missing_item_metadata(&mut target, &source));
    assert_eq!(target.name, "Known Track");
    assert_eq!(target.genre.as_deref(), Some("pop"));
    assert!(!merge_missing_item_metadata(&mut target, &source));
}

#[test]
fn command_results_do_not_move_a_track_that_the_player_speaks_for() {
    let mut clock = PlaybackClock::new(0);
    clock.apply_player_event(&started("spotify:track:a", 5_000), 0, 1);
    let readback = Playback {
        item: Some(track("spotify:track:a", 200_000)),
        device: Some(device("speaker", None)),
        is_playing: false,
        progress_ms: 1_000,
        shuffle: true,
        ..Default::default()
    };
    clock.apply_command_result(&readback, 2, 100);
    let snap = clock.snapshot(100);
    assert!(snap.is_playing);
    assert_eq!(snap.progress_ms, 5_100);
    assert!(snap.shuffle);
    assert_eq!(snap.device.and_then(|d| d.id).as_deref(), Some("speaker"));
}
