use spotuify::media::{MediaItem, MediaKind, Queue};
use spotuify::queue_merge::{queue_tail_anchor, reattach_cached_queue_tail};

fn item(uri: &str) -> MediaItem {
    MediaItem {
        uri: uri.to_string(),
        name: uri.to_string(),
        kind: MediaKind::Track,
        ..Default::default()
    }
}

fn queue(current: Option<&str>, items: &[&str], as_of_ms: i64) -> Queue {
    Queue {
        currently_playing: current.map(item),
        items: items.iter().map(|uri| item(uri)).collect(),
        session_active: true,
        as_of_ms,
    }
}

fn uris(queue: &Queue) -> Vec<&str> {
    queue.items.iter().map(|i| i.uri.as_str()).collect()
}

#[test]
fn truncated_fetch_reattaches_tail_from_anchor_item() {
    let fetched = queue(Some("u:cur"), &["u:n1", "u:n2"], 0);
    let cached = queue(Some("u:cur"), &["u:n1", "u:n2", "u:n3", "u:n4"], 0);
    let merged = reattach_cached_queue_tail(fetched, Some("u:n2"), &cached, false, 100);
    assert_eq!(uris(&merged), ["u:n1", "u:n2", "u:n3", "u:n4"]);
    assert_eq!(merged.as_of_ms, 100);
}

#[test]
fn empty_fetch_anchors_on_currently_playing() {
    let fetched = queue(Some("u:cur"), &[], 0);
    let cached = queue(Some("u:cur"), &["u:n1", "u:n2"], 0);
    let merged = reattach_cached_queue_tail(fetched, Some("u:cur"), &cached, false, 100);
    assert_eq!(uris(&merged), ["u:n1", "u:n2"]);
}

#[test]
fn shuffle_returns_fetch_untouched() {
    let fetched = queue(Some("u:cur"), &["u:x"], 0);
    let cached = queue(Some("u:cur"), &["u:x", "u:y"], 0);
    let merged = reattach_cached_queue_tail(fetched.clone(), Some("u:x"), &cached, true, 100);
    assert_eq!(merged.items.len(), fetched.items.len());
    assert_eq!(merged, fetched);
}

#[test]
fn anchor_in_middle_of_cached_items_resumes_after_it() {
    let fetched = queue(Some("u:n2"), &[], 0);
    let cached = queue(Some("u:cur"), &["u:n1", "u:n2", "u:n3", "u:n4"], 0);
    let merged = reattach_cached_queue_tail(fetched, Some("u:n2"), &cached, false, 100);
    assert_eq!(uris(&merged), ["u:n3", "u:n4"]);
}

#[test]
fn anchor_miss_with_fresh_richer_cache_preserves_upcoming_list() {
    let fetched = queue(Some("u:autoplay"), &[], 0);
    let cached = queue(Some("u:predicted"), &["u:n1", "u:n2"], 95);
    let merged = reattach_cached_queue_tail(fetched, Some("u:autoplay"), &cached, false, 100);
    assert_eq!(uris(&merged), ["u:n1", "u:n2"]);
    assert_eq!(
        merged.currently_playing.map(|i| i.uri),
        Some("u:autoplay".to_string())
    );
}

#[test]
fn anchor_miss_with_stale_cache_accepts_the_fetch() {
    let fetched = queue(Some("u:new"), &[], 0);
    let cached = queue(Some("u:old"), &["u:n1"], 0);
    let merged =
        reattach_cached_queue_tail(fetched.clone(), Some("u:new"), &cached, false, 100_000);
    assert!(merged.items.is_empty());
}

#[test]
fn anchor_miss_with_nonempty_fetch_accepts_the_fetch() {
    let fetched = queue(Some("u:new"), &["u:other1"], 0);
    let cached = queue(Some("u:old"), &["u:n1", "u:n2"], 95);
    let merged = reattach_cached_queue_tail(fetched, Some("u:other1"), &cached, false, 100);
    assert_eq!(uris(&merged), ["u:other1"]);
}

#[test]
fn never_duplicates_queue_entries() {
    let fetched = queue(Some("u:cur"), &["u:n1", "u:n2"], 0);
    let cached = queue(Some("u:cur"), &["u:n1", "u:n2"], 0);
    let merged = reattach_cached_queue_tail(fetched, Some("u:n2"), &cached, false, 100);
    assert_eq!(merged.items.len(), 2);
}

#[test]
fn anchor_prefers_last_upstream_item_then_currently_playing() {
    assert_eq!(
        queue_tail_anchor(&queue(Some("u:cur"), &["u:a", "u:b"], 0)).as_deref(),
        Some("u:b")
    );
    assert_eq!(
        queue_tail_anchor(&queue(Some("u:cur"), &[], 0)).as_deref(),
        Some("u:cur")
    );
    assert_eq!(queue_tail_anchor(&queue(None, &[], 0)), None);
}

#[test]
fn edges_of_the_preserve_window() {
    let fetched = || queue(Some("u:n1"), &[], 0);
    let cached = queue(Some("u:old"), &["u:n2", "u:n3"], 1_000);
    let kept = reattach_cached_queue_tail(fetched(), Some("u:n1"), &cached, false, 10_999);
    assert_eq!(uris(&kept), ["u:n2", "u:n3"]);
    assert_eq!(kept.as_of_ms, 10_999);
    let gone = reattach_cached_queue_tail(fetched(), Some("u:n1"), &cached, false, 11_000);
    assert!(gone.items.is_empty());
    assert_eq!(gone.as_of_ms, 0);
    let none = reattach_cached_queue_tail(fetched(), None, &cached, false, 1_000);
    assert!(none.items.is_empty());
    // What plays now is not also upcoming.
    let current = queue(Some("u:n3"), &[], 0);
    let other = reattach_cached_queue_tail(current, Some("u:gone"), &cached, false, 1_000);
    assert_eq!(uris(&other), ["u:n2"]);
}

#[test]
fn repeated_items_of_a_cached_tail_are_appended_once() {
    let fetched = || queue(Some("u:cur"), &[], 0);
    let cached = queue(Some("u:cur"), &["u:n1", "u:n2", "u:n1"], 0);
    let merged = reattach_cached_queue_tail(fetched(), Some("u:cur"), &cached, false, 100);
    assert_eq!(uris(&merged), ["u:n1", "u:n2"]);
    let cached = queue(Some("u:old"), &["u:a", "u:cur", "u:a", "u:b", "u:a"], 0);
    let merged = reattach_cached_queue_tail(fetched(), Some("u:cur"), &cached, false, 100);
    assert_eq!(uris(&merged), ["u:a", "u:b"]);
}

#[test]
fn merging_again_changes_nothing() {
    let cached = queue(Some("u:cur"), &["u:n1", "u:n2", "u:n1", "u:n3"], 95);
    for (current, items, anchor) in [
        ("u:cur", vec!["u:n1"], "u:n1"),
        ("u:cur", vec![], "u:cur"),
        ("u:new", vec![], "u:new"),
        ("u:new", vec!["u:x"], "u:x"),
    ] {
        let fetched = queue(Some(current), &items, 0);
        let once = reattach_cached_queue_tail(fetched, Some(anchor), &cached, false, 100);
        let twice = reattach_cached_queue_tail(once.clone(), Some(anchor), &cached, false, 100);
        assert_eq!(once, twice);
    }
}
