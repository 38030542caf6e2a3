use spotuify::failure::Failure;
use spotuify::media::{MediaItem, Queue};
use spotuify::provider::ProviderError;
use spotuify::queueing::{
    append_failure_message, batch_added_message, dedup_queue_items, live_queue_uris,
    nothing_to_queue_message, partial_application_message, radio_added_message,
    require_queued_reminder_item, selection_added_message, start_embedded_queue_session,
    validate_queue_batch_provider, QueueAttempt, QueueRun, QueueStep, SESSION_RETRIES,
};
use spotuify::uri::UriScheme;

fn item(uri: &str) -> MediaItem {
    MediaItem {
        uri: uri.to_string(),
        name: uri.to_string(),
        ..Default::default()
    }
}

#[test]
fn dedup_skips_uris_already_in_the_live_queue() {
    let already = ["spotify:track:a".to_string()];
    let (kept, skipped) = dedup_queue_items(
        vec![item("spotify:track:a"), item("spotify:track:b")],
        &already,
    );
    assert_eq!(
        kept.iter().map(|i| i.uri.as_str()).collect::<Vec<_>>(),
        vec!["spotify:track:b"]
    );
    assert_eq!(skipped, 1);
}

#[test]
fn dedup_collapses_duplicates_within_the_batch() {
    let (kept, skipped) = dedup_queue_items(
        vec![
            item("spotify:track:a"),
            item("spotify:track:a"),
            item("spotify:track:b"),
            item("spotify:track:a"),
        ],
        &[],
    );
    assert_eq!(
        kept.iter().map(|i| i.uri.as_str()).collect::<Vec<_>>(),
        vec!["spotify:track:a", "spotify:track:b"]
    );
    assert_eq!(skipped, 2);
}

#[test]
fn dedup_keeps_everything_when_queue_unknown() {
    let (kept, skipped) =
        dedup_queue_items(vec![item("spotify:track:a"), item("spotify:track:b")], &[]);
    assert_eq!(kept.len(), 2);
    assert_eq!(skipped, 0);
}

#[test]
fn queue_batch_rejects_mixed_provider_schemes() {
    let error = validate_queue_batch_provider(&[
        "spotify:track:a".to_string(),
        "apple-music:track:b".to_string(),
    ])
    .unwrap_err();
    assert!(matches!(
        &error,
        Failure::Provider(ProviderError::InvalidInput { field, .. }) if field == "uris"
    ));
    assert_eq!(
        error.message(),
        "invalid provider input `uris`: queue batch mixes provider schemes `spotify` and `apple-music`"
    );
}

#[test]
fn queue_batch_accepts_one_provider_scheme() {
    let scheme = validate_queue_batch_provider(&[
        "spotify:track:a".to_string(),
        "spotify:album:b".to_string(),
    ])
    .unwrap();
    assert_eq!(scheme.as_ref().map(UriScheme::label), Some("spotify"));
    assert_eq!(validate_queue_batch_provider(&[]), Ok(None));
    assert!(matches!(
        validate_queue_batch_provider(&["nonsense".to_string()]),
        Err(Failure::Uri(_))
    ));
}

#[test]
fn no_active_device_does_not_count_as_a_queued_reminder_item() {
    let error = require_queued_reminder_item(QueueAttempt::NoActiveDevice).unwrap_err();
    assert!(matches!(
        error,
        Failure::Provider(ProviderError::NoActiveDevice)
    ));
    assert!(require_queued_reminder_item(QueueAttempt::Queued).is_ok());
}

#[test]
fn only_a_live_queue_vetoes() {
    let queue = |session_active| {
        Some(Queue {
            items: vec![item("u:a"), item("u:b")],
            session_active,
            ..Default::default()
        })
    };
    assert_eq!(live_queue_uris(true, &queue(true)), ["u:a", "u:b"]);
    assert!(live_queue_uris(true, &queue(false)).is_empty());
    assert!(live_queue_uris(false, &queue(true)).is_empty());
    assert!(live_queue_uris(true, &None).is_empty());
}

#[test]
fn a_run_over_a_live_session_appends_everything() {
    let mut run = QueueRun::new(vec![item("u:a"), item("u:b")], false, SESSION_RETRIES);
    assert_eq!(run.first_step(), QueueStep::Append { index: 0 });
    assert_eq!(run.on_queued(), QueueStep::Append { index: 1 });
    assert_eq!(run.uri_at(1), "u:b");
    assert_eq!(run.on_queued(), QueueStep::Finish);
    assert_eq!(run.applied_items().len(), 2);
    assert!(run.started_item().is_none());
}

#[test]
fn a_run_without_a_session_plays_the_first_item_and_retries() {
    let mut run = QueueRun::new(vec![item("u:a"), item("u:b")], false, SESSION_RETRIES);
    assert_eq!(run.on_no_active_device(), QueueStep::Start);
    assert_eq!(run.start_uri("u:selection"), "u:a");
    assert_eq!(run.on_started(), QueueStep::Append { index: 1 });
    for _ in 0..6 {
        assert_eq!(run.on_no_active_device(), QueueStep::Retry { index: 1 });
    }
    assert_eq!(
        run.on_no_active_device(),
        QueueStep::FailPartly { index: 1 }
    );
    assert!(run.applied_items().is_empty());
    assert_eq!(run.started_item().map(|i| i.uri).as_deref(), Some("u:a"));
    assert_eq!(run.on_queued(), QueueStep::Finish);
    assert_eq!(run.applied_items().len(), 1);
}

#[test]
fn a_run_that_starts_a_context_is_done_at_once() {
    let mut run = QueueRun::new(vec![item("u:a"), item("u:b")], true, SESSION_RETRIES);
    assert_eq!(run.on_no_active_device(), QueueStep::Start);
    assert_eq!(run.start_uri("u:album"), "u:album");
    assert_eq!(run.on_started(), QueueStep::Finish);
    assert!(run.applied_items().is_empty());
}

#[test]
fn errors_before_anything_was_done_stand_for_themselves() {
    let mut run = QueueRun::new(vec![item("u:a"), item("u:b")], false, 0);
    assert_eq!(run.on_error(), QueueStep::Fail);
    assert_eq!(run.on_queued(), QueueStep::Append { index: 1 });
    assert_eq!(run.on_error(), QueueStep::FailPartly { index: 1 });
    assert_eq!(
        run.on_no_active_device(),
        QueueStep::FailPartly { index: 1 }
    );
    let empty = QueueRun::new(vec![], false, 0);
    assert_eq!(empty.first_step(), QueueStep::Finish);
}

#[test]
fn what_is_said_about_the_queue() {
    assert_eq!(selection_added_message(true, Some("album"), 0, 3), "playing album now");
    assert_eq!(selection_added_message(true, None, 0, 3), "playing now");
    assert_eq!(
        selection_added_message(true, None, 2, 3),
        "playing now, queued 2 item(s), skipped 3 already queued"
    );
    assert_eq!(selection_added_message(false, None, 2, 0), "queued 2 item(s)");
    assert_eq!(batch_added_message(true, 0, 0), "playing now, queued 0 item(s)");
    assert_eq!(
        batch_added_message(false, 12, 1),
        "queued 12 item(s), skipped 1 already queued"
    );
    assert_eq!(
        radio_added_message(true, 4, 0),
        "playing radio now, queued 4 item(s)"
    );
    assert_eq!(radio_added_message(false, 4, 0), "queued 4 radio item(s)");
    assert_eq!(
        nothing_to_queue_message(2, "nothing to queue"),
        "already queued, skipped 2 item(s)"
    );
    assert_eq!(
        nothing_to_queue_message(0, "nothing to queue"),
        "nothing to queue"
    );
    assert_eq!(
        append_failure_message("radio ", "u:a"),
        "radio queue add for u:a failed"
    );
    assert_eq!(
        partial_application_message(1, "queue add for u:b failed"),
        "queue partially applied (1 action(s) succeeded): queue add for u:b failed; inspect the queue before retrying"
    );
    assert!(start_embedded_queue_session(true).is_ok());
    assert!(matches!(
        start_embedded_queue_session(false),
        Err(Failure::Provider(ProviderError::NoActiveDevice))
    ));
}
