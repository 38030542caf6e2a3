use spotuify::bookmarks::{
    bookmark_lookup_wanted, bookmark_not_found, bookmark_playing_message, clock_label,
    normalize_note, resolve_bookmark_snapshot, resolve_bookmark_target, ItemSnapshot, PlayingItem,
};
use spotuify::failure::Failure;
use spotuify::media::{MediaItem, MediaKind};
use spotuify::reminders::{
    notification_effect, notification_not_found, NotificationAction, NotificationState,
    Recurrence, ReminderState,
};

#[test]
fn clock_label_switches_to_hours_past_sixty_minutes() {
    assert_eq!(clock_label(0), "0:00");
    assert_eq!(clock_label(61_000), "1:01");
    assert_eq!(clock_label(3_600_000 + 5_000), "1:00:05");
}

#[test]
fn clock_label_at_its_edges() {
    assert_eq!(clock_label(999), "0:00");
    assert_eq!(clock_label(3_599_999), "59:59");
    assert_eq!(clock_label(3_600_000), "1:00:00");
    assert_eq!(clock_label(359_999_000), "99:59:59");
    assert_eq!(clock_label(u64::MAX), "5124095576030:25:51");
}

#[test]
fn blank_notes_are_stored_as_none() {
    assert_eq!(normalize_note(None), None);
    assert_eq!(normalize_note(Some("   ".to_string())), None);
    assert_eq!(
        normalize_note(Some("  keep me ".to_string())),
        Some("keep me".to_string())
    );
}

#[test]
fn bookmarks_go_on_what_was_named_or_on_what_plays() {
    let playing = || {
        Some(PlayingItem {
            uri: "spotify:track:a".to_string(),
            progress_ms: 42,
        })
    };
    let named = Some("spotify:track:b".to_string());
    assert_eq!(
        resolve_bookmark_target(named.clone(), None, playing()),
        Ok(("spotify:track:b".to_string(), 0))
    );
    assert_eq!(
        resolve_bookmark_target(named, Some(7), None),
        Ok(("spotify:track:b".to_string(), 7))
    );
    assert_eq!(
        resolve_bookmark_target(None, None, playing()),
        Ok(("spotify:track:a".to_string(), 42))
    );
    assert_eq!(
        resolve_bookmark_target(None, Some(7), playing()),
        Ok(("spotify:track:a".to_string(), 7))
    );
    assert_eq!(
        resolve_bookmark_target(None, None, None)
            .unwrap_err()
            .message(),
        "invalid request: nothing is playing; pass a media URI to bookmark"
    );
    assert!(matches!(
        resolve_bookmark_target(Some("x".to_string()), None, playing()),
        Err(Failure::Uri(_))
    ));
}

#[test]
fn providers_are_asked_only_about_bare_ids() {
    let snapshot = |name: &str, kind| ItemSnapshot {
        kind,
        name: name.to_string(),
        subtitle: String::new(),
        image_url: None,
    };
    let uri = "spotify:episode:ep1";
    let kinds = [MediaKind::Episode];
    let bare = snapshot("ep1", MediaKind::Episode);
    assert_eq!(bookmark_lookup_wanted(uri, &bare, Some(&kinds)), Ok(true));
    assert_eq!(bookmark_lookup_wanted(uri, &bare, None), Ok(false));
    assert_eq!(
        bookmark_lookup_wanted(uri, &bare, Some(&[MediaKind::Track])),
        Ok(false)
    );
    assert_eq!(
        bookmark_lookup_wanted(uri, &snapshot("A talk", MediaKind::Episode), Some(&kinds)),
        Ok(false)
    );
    assert_eq!(
        bookmark_lookup_wanted(uri, &snapshot("ep1", MediaKind::Show), Some(&[MediaKind::Show])),
        Ok(false)
    );
    assert!(bookmark_lookup_wanted("x", &bare, Some(&kinds)).is_err());

    let found = MediaItem {
        name: "A talk".to_string(),
        kind: MediaKind::Episode,
        image_url: Some("i".to_string()),
        ..Default::default()
    };
    let resolved = resolve_bookmark_snapshot(bare.clone(), Some(found));
    assert_eq!(resolved.name, "A talk");
    assert_eq!(resolved.image_url.as_deref(), Some("i"));
    assert_eq!(resolve_bookmark_snapshot(bare.clone(), None), bare);
    assert_eq!(
        bookmark_playing_message("A talk", 61_000),
        "playing A talk from 1:01"
    );
    assert_eq!(bookmark_not_found("7").message(), "bookmark 7 not found");
}

#[test]
fn recurrences_have_several_names() {
    for recurrence in [
        Recurrence::Once,
        Recurrence::Daily,
        Recurrence::Weekly,
        Recurrence::Monthly,
    ] {
        assert_eq!(Recurrence::parse(recurrence.label()), Some(recurrence));
        assert_eq!(recurrence.is_recurring(), recurrence != Recurrence::Once);
    }
    assert_eq!(Recurrence::parse("ONCE"), Some(Recurrence::Once));
    assert_eq!(Recurrence::parse("one-shot"), Some(Recurrence::Once));
    assert_eq!(Recurrence::parse("Day"), Some(Recurrence::Daily));
    assert_eq!(Recurrence::parse("week"), Some(Recurrence::Weekly));
    assert_eq!(Recurrence::parse("month"), Some(Recurrence::Monthly));
    assert_eq!(Recurrence::parse("yearly"), None);
    assert_eq!(Recurrence::default().label(), "none");
    assert_eq!(ReminderState::default(), ReminderState::Active);
    assert_eq!(NotificationState::default(), NotificationState::Unseen);
}

#[test]
fn acting_on_notifications() {
    let effect = notification_effect(NotificationAction::Snooze, None, 5);
    assert_eq!(effect.state, NotificationState::Snoozed);
    assert_eq!(effect.snoozed_until_ms, Some(3_600_005));
    assert!(effect.wakes_scheduler);
    let effect = notification_effect(NotificationAction::Snooze, Some(9), i64::MAX);
    assert_eq!(effect.snoozed_until_ms, Some(9));
    let effect = notification_effect(NotificationAction::Play, None, 5);
    assert_eq!((effect.state, effect.acted), (NotificationState::Done, Some("played")));
    let effect = notification_effect(NotificationAction::Queue, None, 5);
    assert_eq!((effect.state, effect.acted), (NotificationState::Done, Some("queued")));
    let effect = notification_effect(NotificationAction::Seen, None, 5);
    assert_eq!((effect.state, effect.acted), (NotificationState::Seen, None));
    let effect = notification_effect(NotificationAction::Dismiss, None, 5);
    assert_eq!(effect.state, NotificationState::Dismissed);
    assert!(!effect.wakes_scheduler);
    assert_eq!(
        notification_not_found("7").message(),
        "notification 7 not found"
    );
}
