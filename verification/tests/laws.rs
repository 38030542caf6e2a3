use spotuify::analytics::normalize_search_query;
use spotuify::bookmarks::normalize_note;
use spotuify::diagnostics::redacted_client_id;
use spotuify::media::{MediaItem, Playlist};
use spotuify::playlist_plans::{build_playlist_remove_plan, removal_reversal, ReversalPlan};
use spotuify::playlists::normalize_provider_playlist_list;
use spotuify::provider::{claim_target, ProviderId, TargetClaim};
use spotuify::queueing::dedup_queue_items;
use spotuify::theme::canonical_theme_name;
use spotuify::uri::{ResourceUri, UriScheme};

fn item(uri: &str) -> MediaItem {
    MediaItem {
        uri: uri.to_string(),
        ..Default::default()
    }
}

fn playlist(id: &str) -> Playlist {
    Playlist {
        id: id.to_string(),
        name: "Mix".to_string(),
        owner: "Owner".to_string(),
        tracks_total: 5,
        image_url: None,
        version_token: Some("v1".to_string()),
    }
}

#[test]
fn a_removal_that_is_undone_restores_the_playlist() {
    let before = ["p:track:a", "p:track:b", "p:track:a", "p:track:c", "p:track:b"];
    let current: Vec<MediaItem> = before.iter().map(|uri| item(uri)).collect();
    let requested: Vec<ResourceUri> = ["p:track:b", "p:track:a", "p:track:b"]
        .iter()
        .map(|uri| ResourceUri::parse(uri).unwrap())
        .collect();
    let provider = ProviderId::new("p").unwrap();
    let plan = build_playlist_remove_plan(
        &provider,
        provider.clone(),
        true,
        playlist("p:playlist:x"),
        ResourceUri::parse("p:playlist:x").unwrap(),
        &requested,
        &current,
    )
    .unwrap();

    // The provider removes exactly the named positions.
    let named: Vec<u32> = plan
        .mutation_items
        .iter()
        .flat_map(|item| item.positions.clone())
        .collect();
    let mut list: Vec<String> = before
        .iter()
        .enumerate()
        .filter(|(position, _)| !named.contains(&(*position as u32)))
        .map(|(_, uri)| uri.to_string())
        .collect();
    assert_eq!(list, ["p:track:a", "p:track:c"]);

    let ReversalPlan::PlaylistAddAtPositions { items, .. } =
        removal_reversal(&plan, true, Some("v2".to_string())).unwrap()
    else {
        panic!("a provider with versions gives a way back")
    };
    for removed in items {
        list.insert(removed.position as usize, removed.uri);
    }
    assert_eq!(list, before);
}

#[test]
fn doing_it_twice_changes_nothing() {
    let query = normalize_search_query("  A  b ");
    assert_eq!(normalize_search_query(&query), query);
    let note = normalize_note(Some("  keep me ".to_string()));
    assert_eq!(normalize_note(note.clone()), note);
    let name = canonical_theme_name(" Winamp ");
    assert_eq!(canonical_theme_name(&name), name);
    let provider = ProviderId::new("p").unwrap();
    let scheme = UriScheme::new("p").unwrap();
    let once = normalize_provider_playlist_list(&provider, &scheme, &[playlist("x")]).unwrap();
    let twice = normalize_provider_playlist_list(&provider, &scheme, &once).unwrap();
    assert_eq!(once, twice);
    let (kept, _) = dedup_queue_items(vec![item("u:a"), item("u:b"), item("u:a")], &[]);
    let queued: Vec<String> = kept.iter().map(|item| item.uri.clone()).collect();
    let (again, skipped) = dedup_queue_items(kept, &queued);
    assert!(again.is_empty());
    assert_eq!(skipped, 2);
}

#[test]
fn no_input_is_claimed_twice() {
    let a = UriScheme::new("a").unwrap();
    let b = UriScheme::new("b").unwrap();
    for input in ["a:track:x", "b:track:x", "c:track:x", "a:bad", "b:", "words", ""] {
        let claimed = [&a, &b]
            .iter()
            .filter(|scheme| claim_target(scheme, input) != TargetClaim::NotMine)
            .count();
        assert!(claimed <= 1, "{input}");
    }
}

#[test]
fn masked_client_ids_do_not_tell_their_middle() {
    assert_eq!(
        redacted_client_id("0123secret6789"),
        redacted_client_id("0123other6789")
    );
    assert_eq!(redacted_client_id("short"), redacted_client_id("tiny"));
}
