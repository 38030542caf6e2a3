use spotuify::exchange::{AccessUnavailable, PageContinuation, PageRequest, ProviderPage};
use spotuify::failure::Failure;
use spotuify::library::{
    followed_artists_page, plan_radio_queue, plan_selection, require_resource_kind, save_target, show_episodes_page, station_items,
    station_uris, tag_saved, take_items, unavailable_items_failure, RadioQueue,
    SelectionPlan,
};
use spotuify::media::{MediaItem, MediaKind};
use spotuify::paging::{
    client_total, first_page_limit, too_many_pages_error, Collection, CollectionStep, PageWalk,
    SavedTracks, SavedTracksStep,
};
use spotuify::provider::{ProviderCaps, ProviderError, ProviderId, TransportCaps};
use spotuify::uri::{ResourceUri, UriScheme};

fn item(uri: &str) -> MediaItem {
    MediaItem {
        uri: uri.to_string(),
        name: uri.to_string(),
        ..Default::default()
    }
}

fn page(
    names: &[&str],
    total: Option<u64>,
    next: Option<PageContinuation>,
) -> ProviderPage<MediaItem> {
    ProviderPage {
        items: names.iter().map(|name| item(name)).collect(),
        requested_offset: 0,
        total,
        next,
    }
}

fn cursor(text: &str) -> Option<PageContinuation> {
    Some(PageContinuation::Cursor(text.to_string()))
}

fn names(items: &[MediaItem]) -> Vec<&str> {
    items.iter().map(|item| item.name.as_str()).collect()
}

#[test]
fn artist_album_collection_deduplicates_uris_across_provider_pages() {
    let mut albums: Collection<MediaItem> = Collection::start(Some(2), 100, true);
    assert_eq!(albums.request(), PageRequest::new(2, 0));
    let step = albums.on_album_page(page(
        &["duplicate-albums:album:one", "duplicate-albums:album:shared"],
        None,
        Some(PageContinuation::Offset(2)),
    ));
    assert_eq!(step, CollectionStep::More);
    assert_eq!(albums.request(), PageRequest::new(2, 2));
    let step = albums.on_album_page(page(
        &["duplicate-albums:album:shared", "duplicate-albums:album:three"],
        None,
        None,
    ));
    assert_eq!(step, CollectionStep::Done);
    assert_eq!(
        names(&albums.into_items()),
        [
            "duplicate-albums:album:one",
            "duplicate-albums:album:shared",
            "duplicate-albums:album:three",
        ]
    );
}

#[test]
fn saved_tracks_follows_cursor_and_reports_continuation_lower_bound() {
    let mut tracks = SavedTracks::start(3, 5, Some(2), 100).unwrap();
    assert_eq!(tracks.request(), PageRequest::new(2, 5));
    assert_eq!(
        tracks.on_page(page(&["Alpha", "Bravo"], None, cursor("cursor-2"))),
        SavedTracksStep::More
    );
    assert_eq!(tracks.request(), PageRequest::with_cursor(1, 7, "cursor-2"));
    assert_eq!(
        tracks.on_page(page(&["Charlie"], None, cursor("cursor-3"))),
        SavedTracksStep::Done { total: 9 }
    );
    assert_eq!(names(&tracks.into_items()), ["Alpha", "Bravo", "Charlie"]);
}

#[test]
fn saved_tracks_rejects_zero_limit_without_calling_provider() {
    let error = SavedTracks::start(0, 37, Some(2), 100).unwrap_err();
    assert!(matches!(
        error,
        Failure::Provider(ProviderError::InvalidInput { field, .. }) if field == "limit"
    ));
}

#[test]
fn saved_tracks_preserves_exact_provider_total() {
    let mut tracks = SavedTracks::start(2, 5, Some(2), 100).unwrap();
    assert_eq!(
        tracks.on_page(page(&["Alpha", "Bravo"], Some(42), cursor("cursor-2"))),
        SavedTracksStep::Done { total: 42 }
    );
    assert_eq!(tracks.into_items().len(), 2);
}

#[test]
fn saved_tracks_follows_offset_continuation_and_uses_it_for_total_lower_bound() {
    let mut tracks = SavedTracks::start(3, 10, Some(2), 100).unwrap();
    assert_eq!(
        tracks.on_page(page(
            &["Alpha", "Bravo"],
            None,
            Some(PageContinuation::Offset(20))
        )),
        SavedTracksStep::More
    );
    assert_eq!(tracks.request(), PageRequest::new(1, 20));
    assert_eq!(
        tracks.on_page(page(&["Charlie"], None, Some(PageContinuation::Offset(50)))),
        SavedTracksStep::Done { total: 51 }
    );
    assert_eq!(names(&tracks.into_items()), ["Alpha", "Bravo", "Charlie"]);
}

#[test]
fn saved_tracks_give_up_on_endless_lists() {
    let mut tracks = SavedTracks::start(10, 0, None, 2).unwrap();
    assert_eq!(tracks.request(), PageRequest::new(10, 0));
    assert_eq!(
        tracks.on_page(page(&[], None, cursor("a"))),
        SavedTracksStep::More
    );
    assert_eq!(
        tracks.on_page(page(&[], None, cursor("b"))),
        SavedTracksStep::TooManyPages
    );
    assert_eq!(
        too_many_pages_error("saved tracks", 2).message(),
        "provider error: saved tracks pagination exceeded 2 pages"
    );
    let mut tracks = SavedTracks::start(10, 3, Some(0), 2).unwrap();
    assert_eq!(tracks.request(), PageRequest::new(1, 3));
    assert_eq!(
        tracks.on_page(page(&["Alpha"], None, None)),
        SavedTracksStep::Done { total: 4 }
    );
}

#[test]
fn overlong_pages_are_cut() {
    let mut tracks = SavedTracks::start(2, 0, None, 2).unwrap();
    assert_eq!(
        tracks.on_page(page(&["a", "b", "c"], None, None)),
        SavedTracksStep::Done { total: 3 }
    );
    assert_eq!(names(&tracks.into_items()), ["a", "b"]);
}

#[test]
fn walks_stop_at_the_end_or_at_the_limit() {
    let mut walk = PageWalk::start(None, 2, false);
    assert_eq!(walk.request().offset, 0);
    assert_eq!(walk.on_page(3, cursor("x")), CollectionStep::More);
    assert_eq!(walk.request().cursor.as_deref(), Some("x"));
    assert_eq!(walk.request().offset, 3);
    assert_eq!(walk.on_page(3, cursor("y")), CollectionStep::TooManyPages);
    let mut all: Collection<u8> = Collection::start(Some(5), 3, false);
    let step = all.on_page(ProviderPage {
        items: vec![1, 2],
        requested_offset: 0,
        total: None,
        next: None,
    });
    assert_eq!(step, CollectionStep::Done);
    assert_eq!(all.into_items(), [1, 2]);
}

#[test]
fn first_pages_ask_for_at_least_one_entry() {
    assert_eq!(first_page_limit(None, 50), 50);
    assert_eq!(first_page_limit(Some(7), 50), 7);
    assert_eq!(first_page_limit(Some(0), 50), 1);
    assert_eq!(client_total(7), 7);
    assert_eq!(client_total(u64::MAX), u32::MAX);
}

#[test]
fn single_pages_are_asked_for() {
    let episodes = show_episodes_page(20, 40, Some(10));
    assert_eq!(episodes.offset, 40);
    assert!(episodes.limit <= 10);
    assert!(followed_artists_page(20, Some(10)).limit <= 10);
    assert_eq!(
        names(&take_items(vec![item("a"), item("b")], 1)),
        ["a"]
    );
    assert_eq!(take_items(vec![item("a")], 5).len(), 1);
}

#[test]
fn saved_items_are_tagged() {
    let mut items = vec![item("u:a"), item("u:b")];
    tag_saved(&mut items, &["u:b".to_string()]);
    assert_eq!(items[0].in_library, Some(false));
    assert_eq!(items[1].in_library, Some(true));
}

#[test]
fn targets_of_a_save() {
    let playing = || Some("u:playing".to_string());
    assert_eq!(
        save_target(Some("u:a".to_string()), false, playing()),
        Ok("u:a".to_string())
    );
    assert_eq!(
        save_target(Some("u:a".to_string()), true, playing()),
        Ok("u:a".to_string())
    );
    assert_eq!(
        save_target(None, true, playing()),
        Ok("u:playing".to_string())
    );
    assert!(save_target(None, true, None).is_err());
    assert!(save_target(None, false, playing()).is_err());
}

#[test]
fn selections_are_planned_by_kind() {
    let mut caps = ProviderCaps::default();
    let (uri, plan) = plan_selection("p:album:1", &caps).unwrap();
    assert_eq!(uri.as_uri(), "p:album:1");
    assert!(matches!(plan, SelectionPlan::AlbumTracks { needs } if !needs.offered));
    let (_, plan) = plan_selection("p:playlist:1", &caps).unwrap();
    assert!(matches!(plan, SelectionPlan::PlaylistItems { .. }));
    caps.catalog.lookup_kinds.push(MediaKind::Track);
    let (_, plan) = plan_selection("p:track:1", &caps).unwrap();
    assert!(matches!(plan, SelectionPlan::Lookup { needs } if needs.offered));
    let (_, plan) = plan_selection("p:episode:1", &caps).unwrap();
    assert!(matches!(plan, SelectionPlan::FromUri));
    assert!(plan_selection("p:show:1", &caps).is_err());
    assert!(plan_selection("x", &caps).is_err());
    let failure = unavailable_items_failure(AccessUnavailable::Private);
    assert!(failure.message().contains("Private"));
}

#[test]
fn stations_hold_their_provider_s_tracks() {
    let provider = ProviderId::new("p").unwrap();
    let scheme = UriScheme::new("p").unwrap();
    let uri = |s: &str| ResourceUri::parse(s).unwrap();
    let uris = station_uris(
        "p:track:seed",
        &provider,
        &scheme,
        &[uri("p:track:a"), uri("p:track:b")],
    )
    .unwrap();
    assert_eq!(uris, ["p:track:a", "p:track:b"]);
    assert!(station_uris("p:track:seed", &provider, &scheme, &[uri("q:track:a")]).is_err());
    let known = MediaItem {
        name: "Known".to_string(),
        ..item("p:track:b")
    };
    let items = station_items(&uris, &[known], &provider);
    assert_eq!(
        items.iter().map(|i| i.uri.as_str()).collect::<Vec<_>>(),
        ["p:track:a", "p:track:b"]
    );
    assert_eq!(items[1].name, "Known");
}

#[test]
fn identifiers_have_to_be_of_the_wanted_kind() {
    let album = ResourceUri::parse("p:album:1").unwrap();
    assert!(require_resource_kind(&album, MediaKind::Album, "album").is_ok());
    let error = require_resource_kind(&album, MediaKind::Artist, "artist").unwrap_err();
    assert!(matches!(
        &error,
        Failure::Provider(ProviderError::InvalidInput { field, .. }) if field == "artist"
    ));
    assert_eq!(
        error.message(),
        "invalid provider input `artist`: expected URI of kind artist, got album `p:album:1`"
    );
}

#[test]
fn stations_that_are_queued_need_a_queue() {
    let mut caps = ProviderCaps::default();
    assert_eq!(plan_radio_queue(false, &caps), RadioQueue::NotWanted);
    assert!(matches!(
        plan_radio_queue(true, &caps),
        RadioQueue::Wanted { needs, queue_read: false } if !needs.offered
    ));
    caps.transport = Some(TransportCaps {
        queue_add: true,
        queue_read: true,
        ..Default::default()
    });
    assert!(matches!(
        plan_radio_queue(true, &caps),
        RadioQueue::Wanted { needs, queue_read: true }
            if needs.offered && needs.name == "queue add"
    ));
    assert_eq!(plan_radio_queue(false, &caps), RadioQueue::NotWanted);
}
