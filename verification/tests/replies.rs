use spotuify::library::{plan_followed_artists, ListPlan};
use spotuify::playlist_plans::{
    addition_reversal, creation_reversal, queue_reversal, save_reversal, transport_reversal,
    unsave_reversal, ReversalPlan,
};
use spotuify::playlists::{plan_playlist_tracks, plan_playlists_list, tracks_need_sign_in};
use spotuify::replies::{
    cover_updated_message, followed_message, items_added_message, items_removed_message,
    playlist_created_message, playlist_unfollowed_message, theme_set_message, unfollowed_message,
    unknown_theme_message, unknown_viz_style_message, unsaved_message, viz_enabled_message,
    viz_focus_message, viz_source_message, viz_style_message,
};
use spotuify::requests::{answering_part, categorize, Cat, RequestKind};

#[test]
fn writes_come_with_a_way_back() {
    let uris = ["p:track:a".to_string(), "p:track:b".to_string()];
    assert_eq!(
        addition_reversal("p:playlist:x", &uris, Some("v1".to_string())),
        ReversalPlan::PlaylistRemoveTracks {
            playlist_id: "p:playlist:x".to_string(),
            uris: uris.to_vec(),
            version_token: Some("v1".to_string()),
        }
    );
    assert_eq!(
        creation_reversal("p:playlist:x"),
        ReversalPlan::PlaylistDelete {
            playlist_id: "p:playlist:x".to_string()
        }
    );
    assert_eq!(
        save_reversal("p:track:a"),
        ReversalPlan::LibraryUnsave {
            uri: "p:track:a".to_string()
        }
    );
    assert_eq!(
        unsave_reversal("p:track:a"),
        ReversalPlan::LibrarySave {
            uri: "p:track:a".to_string(),
            prior_added_at_ms: None,
        }
    );
    assert_eq!(
        queue_reversal(),
        ReversalPlan::NotReversible {
            reason: "the remote queue has no remove operation".to_string()
        }
    );
    assert_eq!(
        transport_reversal(),
        ReversalPlan::NotReversible {
            reason: "transport".to_string()
        }
    );
}

#[test]
fn an_addition_that_is_undone_restores_the_playlist() {
    let before = vec!["p:track:c".to_string(), "p:track:d".to_string()];
    let added = ["p:track:a".to_string(), "p:track:b".to_string(), "p:track:a".to_string()];
    let mut list = before.clone();
    list.extend(added.iter().cloned());
    let ReversalPlan::PlaylistRemoveTracks { uris, .. } =
        addition_reversal("p:playlist:x", &added, None)
    else {
        panic!("an addition is undone by a removal")
    };
    list.retain(|uri| !uris.contains(uri));
    assert_eq!(list, before);
}

#[test]
fn lists_are_answered_from_the_cache_or_fetched() {
    assert_eq!(plan_playlists_list(false), ListPlan::Cached { refresh: true });
    assert_eq!(plan_playlists_list(true), ListPlan::Fetch);
    assert_eq!(
        plan_playlist_tracks(false, false),
        ListPlan::Cached { refresh: false }
    );
    assert_eq!(plan_playlist_tracks(false, true), ListPlan::Pending);
    assert_eq!(plan_playlist_tracks(true, false), ListPlan::Fetch);
    assert_eq!(plan_playlist_tracks(true, true), ListPlan::Fetch);
    assert!(!tracks_need_sign_in(ListPlan::Cached { refresh: false }));
    assert!(tracks_need_sign_in(ListPlan::Pending));
    assert!(tracks_need_sign_in(ListPlan::Fetch));
    assert_eq!(
        plan_followed_artists(false),
        ListPlan::Cached { refresh: false }
    );
    assert_eq!(plan_followed_artists(true), ListPlan::Fetch);
}

#[test]
fn what_clients_are_told() {
    assert_eq!(items_added_message("Mix"), "Added items to Mix");
    assert_eq!(items_removed_message(3, "Mix"), "Removed 3 item(s) from Mix");
    assert_eq!(
        playlist_created_message("Mix", 12),
        "Created playlist `Mix` with 12 item(s)"
    );
    assert_eq!(playlist_unfollowed_message("Mix"), "Unfollowed playlist Mix");
    assert_eq!(cover_updated_message("Mix"), "Updated cover for playlist Mix");
    assert_eq!(unsaved_message("u:a"), "Unsaved u:a");
    assert_eq!(followed_message("u:a"), "Followed u:a");
    assert_eq!(unfollowed_message("u:a"), "Unfollowed u:a");
    assert_eq!(viz_enabled_message(true), "visualization enabled");
    assert_eq!(viz_enabled_message(false), "visualization disabled");
    assert_eq!(viz_source_message("mic"), "visualization source set to mic");
    assert_eq!(viz_style_message("bars"), "visualization style set to bars");
    assert_eq!(
        unknown_viz_style_message("x"),
        "unknown visualizer style `x`; run `spotuify viz styles` for the list"
    );
    assert_eq!(viz_focus_message(Some("tui"), true), "viz focus[tui] = true");
    assert_eq!(viz_focus_message(None, false), "viz focus[unknown] = false");
    assert_eq!(theme_set_message("nord"), "theme set to nord");
    assert_eq!(
        unknown_theme_message("x", "nord, winamp"),
        "unknown theme `x`; expected one of nord, winamp"
    );
}

#[test]
fn requests_are_answered_where_they_are_routed() {
    for request in [
        RequestKind::Ping,
        RequestKind::QueueAddMany,
        RequestKind::SearchStream,
        RequestKind::LibraryUnsave,
        RequestKind::PlaylistCreate,
        RequestKind::AnalyticsPrune,
        RequestKind::OpsRedo,
        RequestKind::ReminderCancel,
        RequestKind::BookmarksList,
        RequestKind::SetVizStyle,
        RequestKind::CoverArt,
        RequestKind::ThemesList,
    ] {
        assert_eq!(answering_part(&request), Some(categorize(&request)));
    }
    // These are routed, but nothing answers them yet.
    assert_eq!(categorize(&RequestKind::EqSet), Cat::Playback);
    assert_eq!(answering_part(&RequestKind::EqSet), None);
    assert_eq!(answering_part(&RequestKind::PlaybackSpeedGet), None);
    assert_eq!(answering_part(&RequestKind::PlaylistRemoveOccurrences), None);
    assert_eq!(answering_part(&RequestKind::AnalyticsImport), None);
}
