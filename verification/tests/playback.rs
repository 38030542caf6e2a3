use spotuify::actions::CommandKind;
use spotuify::admin::{
    plan_sync, plan_update_check, rows_to_prune, search_prune_cutoff, update_check_is_stale,
    SyncTarget, UpdateCheck, UPDATE_FRESH_MS,
};
use spotuify::exchange::{PlaySource, TransportDevice};
use spotuify::failure::Failure;
use spotuify::media::{Device, MediaItem, Playback, PlaybackStateSource};
use spotuify::playback::{
    analytics_context, audio_output_message, auth_gate, playback_on, queue_context_uri,
    queue_refresh_wanted, replay_after_transfer, require_audio_output, resolve_relative_seek,
    resume_position, transfer_hint, with_own_device, AuthGate,
};
use spotuify::provider::{ProviderError, ProviderId};
use spotuify::requests::{categorize, Cat, RequestKind};

fn device(id: &str) -> Device {
    Device {
        id: Some(id.to_string()),
        name: "speaker".to_string(),
        kind: "Speaker".to_string(),
        is_active: false,
        is_restricted: false,
        volume_percent: None,
        supports_volume: true,
    }
}

fn playing(uri: &str) -> Playback {
    Playback {
        item: Some(MediaItem {
            uri: uri.to_string(),
            ..Default::default()
        }),
        is_playing: true,
        progress_ms: 42,
        ..Default::default()
    }
}

#[test]
fn relative_seeks() {
    let seek = |duration, progress, offset| resolve_relative_seek(duration, progress, offset);
    assert_eq!(seek(Some(100), 50, 20), Ok(70));
    assert_eq!(seek(Some(100), 50, 80), Ok(100));
    assert_eq!(seek(Some(100), 50, -80), Ok(0));
    assert_eq!(seek(Some(0), 50, 80), Ok(130));
    assert_eq!(seek(Some(0), 50, i64::MAX), Ok(i64::MAX as u64));
    assert_eq!(seek(Some(0), u64::MAX, 0), Ok(0));
    assert_eq!(seek(Some(0), u64::MAX, 5), Ok(4));
    assert_eq!(
        seek(None, 50, 0).unwrap_err().message(),
        "invalid request: seek requires an active track"
    );
}

#[test]
fn commands_name_what_they_start() {
    let play = CommandKind::PlayUri {
        uri: "u:a".to_string(),
        context: None,
    };
    assert_eq!(queue_context_uri(&play).as_deref(), Some("u:a"));
    assert_eq!(queue_context_uri(&CommandKind::Next), None);
    assert_eq!(analytics_context(&play, Some("u:list")).as_deref(), Some("u:list"));
    assert_eq!(analytics_context(&play, None).as_deref(), Some("u:a"));
    assert_eq!(analytics_context(&CommandKind::Next, Some("u:list")), None);
    assert!(queue_refresh_wanted("next", false));
    assert!(queue_refresh_wanted("previous", false));
    assert!(!queue_refresh_wanted("next", true));
    assert!(!queue_refresh_wanted("pause", false));
}

#[test]
fn sign_ins_that_commands_need() {
    assert_eq!(auth_gate(None), Ok(AuthGate::Active));
    assert_eq!(auth_gate(Some("spotify:track:a")), Ok(AuthGate::Spotify));
    assert_eq!(
        auth_gate(Some("fake:track:a")),
        Ok(AuthGate::Provider(ProviderId::new("fake").unwrap()))
    );
    assert!(matches!(auth_gate(Some("x")), Err(Failure::Uri(_))));
}

#[test]
fn handing_over() {
    let devices = with_own_device(vec![device("a")], Some(device("b")));
    assert_eq!(devices.len(), 2);
    assert_eq!(with_own_device(devices, Some(device("a"))).len(), 2);
    assert_eq!(with_own_device(vec![], None).len(), 0);
    assert!(transfer_hint("Kitchen", Some("x_amzn_1")).contains("Alexa"));
    assert_eq!(
        transfer_hint("Kitchen", None),
        "\"Kitchen\" is offline or unavailable to Spotify right now."
    );
    let target = Some("b".to_string());
    let request = replay_after_transfer(&playing("u:track:a"), &None, &target, false)
        .unwrap()
        .expect("the device did not take over");
    assert_eq!(request.start_uri.as_uri(), "u:track:a");
    assert_eq!(request.source, PlaySource::Single);
    assert_eq!(request.device, TransportDevice::Id("b".to_string()));
    assert_eq!(request.position_ms, 42);
    let mut over = playing("u:track:a");
    over.device = Some(device("b"));
    let replay = |result: &Option<Playback>, target: &Option<String>, own| {
        replay_after_transfer(&playing("u:track:a"), result, target, own).unwrap()
    };
    assert!(replay(&Some(over), &target, false).is_none());
    assert!(replay(&None, &target, true).is_none());
    assert!(replay(&None, &None, false).is_none());
    assert!(replay_after_transfer(&playing("x"), &None, &target, false).is_err());
    let moved = playback_on(&playing("u:track:a"), &device("b"), 9);
    assert_eq!(moved.source, Some(PlaybackStateSource::CommandResult));
    assert_eq!(moved.progress_ms, 42);
    assert_eq!(moved.device, Some(device("b")));
    assert_eq!(moved.sampled_at_ms, Some(9));
}

#[test]
fn audio_outputs() {
    let outputs = ["a".to_string()];
    assert!(require_audio_output("a", &outputs).is_ok());
    assert_eq!(
        require_audio_output("b", &outputs).unwrap_err().message(),
        "invalid provider input `device`: audio output `b` is not available"
    );
    assert_eq!(resume_position(7), 7);
    assert_eq!(resume_position(u64::from(u32::MAX) + 1), 0);
    assert_eq!(
        audio_output_message(Some("a"), Some(true)),
        "audio output set to \"a\"; playback resumed"
    );
    assert_eq!(
        audio_output_message(None, None),
        "audio output reset to the system default"
    );
    assert_eq!(
        audio_output_message(None, Some(false)),
        "audio output reset to the system default; playback could not be resumed automatically"
    );
}

#[test]
fn syncs_take_the_transport_of_the_selected_provider() {
    let a = ProviderId::new("a").unwrap();
    let b = ProviderId::new("b").unwrap();
    assert_eq!(plan_sync(SyncTarget::All, &a, &a, true), Ok(true));
    assert_eq!(plan_sync(SyncTarget::All, &a, &b, true), Ok(false));
    assert_eq!(plan_sync(SyncTarget::Library, &a, &a, false), Ok(false));
    assert_eq!(plan_sync(SyncTarget::Queue, &a, &a, true), Ok(true));
    assert!(matches!(
        plan_sync(SyncTarget::Queue, &a, &a, false),
        Err(Failure::Provider(ProviderError::Unsupported { .. }))
    ));
    assert_eq!(
        plan_sync(SyncTarget::Devices, &a, &b, true)
            .unwrap_err()
            .message(),
        "invalid provider input `provider`: transport sync provider `a` is inactive; active provider is `b`"
    );
}

#[test]
fn updates_and_prunes() {
    assert!(update_check_is_stale(None, 0));
    assert!(!update_check_is_stale(Some(0), UPDATE_FRESH_MS));
    assert!(update_check_is_stale(Some(0), UPDATE_FRESH_MS + 1));
    assert!(update_check_is_stale(Some(i64::MIN), i64::MAX));
    assert_eq!(plan_update_check(true, Some(0), 0), UpdateCheck::Now);
    assert_eq!(plan_update_check(false, None, 0), UpdateCheck::InBackground);
    assert_eq!(plan_update_check(false, Some(0), 0), UpdateCheck::NotNeeded);
    assert_eq!(search_prune_cutoff(Some(4), 0), 4);
    assert_eq!(search_prune_cutoff(None, 2_592_000_001), 1);
    assert_eq!(rows_to_prune(-1, 2, 3), 5);
}

#[test]
fn requests_are_sorted_into_categories() {
    assert_eq!(categorize(&RequestKind::Ping), Cat::Admin);
    assert_eq!(categorize(&RequestKind::QueueAdd), Cat::Playback);
    assert_eq!(categorize(&RequestKind::SearchPage), Cat::Search);
    assert_eq!(categorize(&RequestKind::RadioStart), Cat::Library);
    assert_eq!(categorize(&RequestKind::PlaylistCreate), Cat::Playlists);
    assert_eq!(categorize(&RequestKind::AnalyticsTop), Cat::Analytics);
    assert_eq!(categorize(&RequestKind::OpsUndo), Cat::Ops);
    assert_eq!(categorize(&RequestKind::NotificationAct), Cat::Reminders);
    assert_eq!(categorize(&RequestKind::BookmarkPlay), Cat::Bookmarks);
    assert_eq!(categorize(&RequestKind::GetVizStatus), Cat::Viz);
    assert_eq!(categorize(&RequestKind::LyricsGet), Cat::Media);
    assert_eq!(categorize(&RequestKind::SetTheme), Cat::Themes);
}
