//! The user's library and what is found around it: saved items, radio
//! stations, and what a selection expands to.

use vstd::prelude::*;
use vstd::string::*;

use crate::exchange::{AccessUnavailable, PageRequest, PageRequestModel};
use crate::failure::{Failure, FailureModel, bad_input};
use crate::media::{
    ItemSource, ItemSourceModel, MediaItem, MediaItemModel, MediaKind, Playlist, blank_item,
};
use crate::paging::least;
use crate::provider::{ProviderCaps, ProviderErrorModel, ProviderId, kind_in};
use crate::text::{
    concat2, concat3, concat5, lemma_seq_view_push, lemma_texts_push, list_has, opt_text, opt_view,
    same_text, seq_view, texts,
};
use crate::uri::{ResourceUri, UriModel, UriScheme, parsed_text_is_canonical, parsed_uri};

verus! {

broadcast use {lemma_seq_view_push, lemma_texts_push};

// ---------------------------------------------------------------------------
// Lists
// ---------------------------------------------------------------------------

/// How a request for a list is answered.
#[derive(Clone, Copy, Debug, PartialEq, Eq, Structural)]
pub enum ListPlan {
    /// With what is cached; `refresh` says whether a refresh starts in the
    /// background.
    Cached { refresh: bool },
    /// With nothing for now, while a refresh starts in the background.
    Pending,
    /// With what the provider is asked for first.
    Fetch,
}

/// How many entries of a show are asked for at once: what the client wants,
/// up to what the provider serves. That size is cast to 32 bits: of one beyond
/// their range only the low bits count.
pub open spec fn episode_page_limit(limit: u32, max_page_size: Option<usize>) -> u32 {
    least(
        limit,
        match max_page_size {
            Some(n) => (n as u64 % 4_294_967_296u64) as u32,
            None => 50,
        },
    )
}

/// The page of a show's episodes that a client asks for.
pub fn show_episodes_page(limit: u32, offset: u32, max_page_size: Option<usize>) -> (r:
    PageRequest)
    ensures
        r@ == (PageRequestModel {
            limit: episode_page_limit(limit, max_page_size),
            offset: offset as u64,
            cursor: None,
        }),
{
    let most: u32 = match max_page_size {
        Some(n) => ((n as u64) % 4_294_967_296u64) as u32,
        None => 50,
    };
    let size: u32 = if limit < most {
        limit
    } else {
        most
    };
    PageRequest::new(size, offset as u64)
}

/// The page that a cold cache of followed artists is filled from.
pub fn followed_artists_page(limit: u32, max_page_size: Option<usize>) -> (r: PageRequest)
    ensures
        r@ == (PageRequestModel {
            limit: episode_page_limit(
                if limit < 1 {
                    1
                } else {
                    limit
                },
                max_page_size,
            ),
            offset: 0,
            cursor: None,
        }),
{
    let wanted: u32 = if limit < 1 {
        1
    } else {
        limit
    };
    show_episodes_page(wanted, 0, max_page_size)
}

/// How the followed artists are answered: from the cache where it has some,
/// else from the provider.
pub fn plan_followed_artists(cache_is_empty: bool) -> (r: ListPlan)
    ensures
        r == if cache_is_empty {
            ListPlan::Fetch
        } else {
            ListPlan::Cached { refresh: false }
        },
{
    if cache_is_empty {
        ListPlan::Fetch
    } else {
        ListPlan::Cached { refresh: false }
    }
}

/// The first entries of a list, at most as many as asked for.
pub fn take_items(items: Vec<MediaItem>, limit: u32) -> (r: Vec<MediaItem>)
    ensures
        r@ == if items@.len() <= limit {
            items@
        } else {
            items@.take(limit as int)
        },
{
    let mut items = items;
    if items.len() > limit as usize {
        items.truncate(limit as usize);
    }
    items
}

/// An item marked with whether its URI is among the saved ones.
pub open spec fn tagged(item: MediaItemModel, saved: Seq<Seq<char>>) -> MediaItemModel {
    MediaItemModel { in_library: Some(saved.contains(item.uri)), ..item }
}

/// Marks every album with whether it is saved.
pub fn tag_saved(items: &mut Vec<MediaItem>, saved: &[String])
    ensures
        final(items)@.len() == old(items)@.len(),
        forall|i: int|
            0 <= i < final(items)@.len() ==> (#[trigger] final(items)@[i])@ == tagged(
                old(items)@[i]@,
                texts(saved@),
            ),
{
    let ghost before = items@;
    let mut i: usize = 0;
    while i < items.len()
        invariant
            i <= items@.len(),
            items@.len() == before.len(),
            forall|k: int|
                0 <= k < i ==> (#[trigger] items@[k])@ == tagged(before[k]@, texts(saved@)),
            forall|k: int| i <= k < items@.len() ==> (#[trigger] items@[k]) == before[k],
        decreases items@.len() - i,
    {
        assert(items@[i as int] == before[i as int]);
        let is_saved = list_has(saved, items[i].uri.as_str());
        items[i].in_library = Some(is_saved);
        i = i + 1;
    }
}

/// What to save: the URI that was given, or what plays where the current item
/// was asked for.
pub fn save_target(uri: Option<String>, current: bool, playing: Option<String>) -> (r: Result<
    String,
    Failure,
>)
    ensures
        ({
            let wanted = if uri is Some {
                opt_text(uri)
            } else if current {
                opt_text(playing)
            } else {
                None
            };
            match r {
                Ok(target) => wanted == Some(target@),
                Err(error) => wanted is None && error@ == FailureModel::Refused(
                    "nothing is playing"@,
                ),
            }
        }),
{
    match uri {
        Some(uri) => Ok(uri),
        None => {
            if current {
                if let Some(uri) = playing {
                    return Ok(uri);
                }
            }
            Err(Failure::refused("nothing is playing"))
        },
    }
}

/// What is wrong with an identifier of another kind than the one wanted.
pub open spec fn wrong_kind(wanted: MediaKind, field: Seq<char>, uri: UriModel) -> FailureModel {
    bad_input(
        field,
        "expected URI of kind "@ + wanted.name() + ", got "@ + uri.kind.name() + " `"@ + uri.text()
            + "`"@,
    )
}

/// Rejects an identifier of another kind than the one wanted. `field` is the
/// field of the request that the identifier came in.
pub fn require_resource_kind(uri: &ResourceUri, wanted: MediaKind, field: &str) -> (r: Result<
    (),
    Failure,
>)
    ensures
        match r {
            Ok(_) => uri@.kind == wanted,
            Err(error) => uri@.kind != wanted && error@ == wrong_kind(wanted, field@, uri@),
        },
{
    let kind = uri.kind();
    if kind == wanted {
        return Ok(());
    }
    let text = uri.as_uri();
    let mut message = concat5("expected URI of kind ", wanted.label(), ", got ", kind.label(), " `");
    message.append(text.as_str());
    message.append("`");
    Err(Failure::invalid_input(field, message.as_str()))
}

// ---------------------------------------------------------------------------
// Selections
// ---------------------------------------------------------------------------

/// Something that a provider has to offer for a request, and whether it does.
#[derive(Clone, Copy, Debug, PartialEq, Eq)]
pub struct NeededCapability {
    pub name: &'static str,
    pub offered: bool,
}

/// How a selection becomes items for the queue.
#[derive(Clone, Debug, PartialEq, Eq)]
pub enum SelectionPlan {
    /// Look the track up; where the provider does not know it, its URI will do.
    Lookup { needs: NeededCapability },
    /// The URI alone will do.
    FromUri,
    /// Read the items of the playlist.
    PlaylistItems { needs: NeededCapability },
    /// Read the tracks of the album.
    AlbumTracks { needs: NeededCapability },
}

/// How a selection of a kind becomes items for the queue; artists and shows
/// do not.
pub open spec fn is_queueable(kind: MediaKind) -> bool {
    kind != MediaKind::Artist && kind != MediaKind::Show
}

/// How a selection becomes items for the queue.
pub fn plan_selection(uri: &str, caps: &ProviderCaps) -> (r: Result<
    (ResourceUri, SelectionPlan),
    Failure,
>)
    ensures
        match parsed_uri(uri@) {
            Err(error) => r is Err && r->Err_0@ == FailureModel::Uri(error),
            Ok(resource) => match r {
                Err(error) => !is_queueable(resource.kind) && error@ == FailureModel::Refused(
                    "artist and show URIs cannot be appended to the queue; choose a track, episode, album, or playlist"@,
                ),
                Ok((found, plan)) => found@ == resource && match resource.kind {
                    MediaKind::Track => plan matches SelectionPlan::Lookup { needs }
                        && needs.name@ == "track catalog lookup"@ && needs.offered
                        == caps.catalog.lookup_kinds@.contains(MediaKind::Track),
                    MediaKind::Episode => plan is FromUri,
                    MediaKind::Playlist => plan matches SelectionPlan::PlaylistItems { needs }
                        && needs.name@ == "playlist item reads"@ && needs.offered
                        == caps.playlists.item_read,
                    MediaKind::Album => plan matches SelectionPlan::AlbumTracks { needs }
                        && needs.name@ == "album tracks"@ && needs.offered
                        == caps.catalog.album_tracks,
                    _ => false,
                },
            },
        },
{
    let resource = match ResourceUri::parse(uri) {
        Ok(resource) => resource,
        Err(error) => return Err(Failure::Uri(error)),
    };
    match resource.kind() {
        MediaKind::Track => {
            let offered = kind_in(caps.catalog.lookup_kinds.as_slice(), &MediaKind::Track);
            Ok(
                (
                    resource,
                    SelectionPlan::Lookup {
                        needs: NeededCapability { name: "track catalog lookup", offered },
                    },
                ),
            )
        },
        MediaKind::Episode => Ok((resource, SelectionPlan::FromUri)),
        MediaKind::Playlist => Ok(
            (
                resource,
                SelectionPlan::PlaylistItems {
                    needs: NeededCapability {
                        name: "playlist item reads",
                        offered: caps.playlists.item_read,
                    },
                },
            ),
        ),
        MediaKind::Album => Ok(
            (
                resource,
                SelectionPlan::AlbumTracks {
                    needs: NeededCapability {
                        name: "album tracks",
                        offered: caps.catalog.album_tracks,
                    },
                },
            ),
        ),
        _ => Err(
            Failure::refused(
                "artist and show URIs cannot be appended to the queue; choose a track, episode, album, or playlist",
            ),
        ),
    }
}

/// The failure of a playlist that cannot be read.
pub fn unavailable_items_failure(reason: AccessUnavailable) -> (r: Failure)
    ensures
        r@ == FailureModel::Refused("playlist items are unavailable: "@ + reason.name()),
{
    Failure::Refused(concat2("playlist items are unavailable: ", reason.label()))
}

// ---------------------------------------------------------------------------
// Radio
// ---------------------------------------------------------------------------

/// The texts of a list of resources.
pub open spec fn uri_texts(uris: Seq<UriModel>) -> Seq<Seq<char>> {
    Seq::new(uris.len(), |i: int| uris[i].text())
}

/// Whether a resource of a radio station is what it has to be: a track of the
/// provider itself.
pub open spec fn is_own_track(uri: UriModel, scheme: Seq<char>) -> bool {
    uri.scheme == scheme && uri.kind == MediaKind::Track
}

/// The first resource of a station that is not a track of the provider, by
/// its place; the length where all are.
pub open spec fn first_foreign(tracks: Seq<UriModel>, scheme: Seq<char>) -> int
    decreases tracks.len(),
{
    if tracks.len() == 0 || !is_own_track(tracks[0], scheme) {
        0
    } else {
        1 + first_foreign(tracks.skip(1), scheme)
    }
}

proof fn lemma_first_foreign(tracks: Seq<UriModel>, scheme: Seq<char>, i: int)
    requires
        0 <= i <= tracks.len(),
        forall|k: int| 0 <= k < i ==> is_own_track(#[trigger] tracks[k], scheme),
        i < tracks.len() ==> !is_own_track(tracks[i], scheme),
    ensures
        first_foreign(tracks, scheme) == i,
    decreases i,
{
    if i > 0 {
        assert forall|k: int| 0 <= k < i - 1 implies is_own_track(
            #[trigger] tracks.skip(1)[k],
            scheme,
        ) by {
            assert(tracks.skip(1)[k] == tracks[k + 1]);
        }
        lemma_first_foreign(tracks.skip(1), scheme, i - 1);
    }
}

/// What is wrong with a station, if anything.
pub open spec fn station_fault(
    seed: Seq<char>,
    provider: Seq<char>,
    scheme: Seq<char>,
    tracks: Seq<UriModel>,
) -> Option<FailureModel> {
    let i = first_foreign(tracks, scheme);
    if i < tracks.len() {
        Some(
            bad_input(
                "radio.kind"@,
                "provider "@ + provider + " returned non-track or foreign radio resource `"@
                    + tracks[i].text() + "`"@,
            ),
        )
    } else if tracks.len() == 0 {
        Some(
            FailureModel::Refused(
                "radio station returned no tracks; the provider service may have changed or `"@
                    + seed + "` has no station"@,
            ),
        )
    } else {
        None
    }
}

/// The URIs of a station, where all of it is tracks of the provider.
pub fn station_uris(
    seed: &str,
    provider: &ProviderId,
    scheme: &UriScheme,
    tracks: &[ResourceUri],
) -> (r: Result<Vec<String>, Failure>)
    ensures
        match r {
            Ok(uris) => station_fault(seed@, provider@, scheme@, seq_view(tracks@)) is None
                && texts(uris@) == uri_texts(seq_view(tracks@)),
            Err(error) => station_fault(seed@, provider@, scheme@, seq_view(tracks@)) == Some(
                error@,
            ),
        },
{
    let ghost all = seq_view(tracks@);
    let mut uris: Vec<String> = Vec::new();
    let mut i: usize = 0;
    assert(texts(uris@) =~= uri_texts(all).take(0));
    while i < tracks.len()
        invariant
            i <= tracks@.len(),
            all == seq_view(tracks@),
            forall|k: int| 0 <= k < i ==> is_own_track(#[trigger] all[k], scheme@),
            texts(uris@) =~= uri_texts(all).take(i as int),
        decreases tracks@.len() - i,
    {
        let track = &tracks[i];
        assert(all[i as int] == track@);
        let text = track.as_uri();
        if !track.scheme().same(scheme) || track.kind() != MediaKind::Track {
            proof {
                lemma_first_foreign(all, scheme@, i as int);
            }
            let message = concat5(
                "provider ",
                provider.as_str(),
                " returned non-track or foreign radio resource `",
                text.as_str(),
                "`",
            );
            return Err(Failure::invalid_input("radio.kind", message.as_str()));
        }
        uris.push(text);
        i = i + 1;
    }
    proof {
        lemma_first_foreign(all, scheme@, all.len() as int);
        assert(uri_texts(all).take(all.len() as int) =~= uri_texts(all));
    }
    if uris.len() == 0 {
        let message = concat3(
            "radio station returned no tracks; the provider service may have changed or `",
            seed,
            "` has no station",
        );
        return Err(Failure::Refused(message));
    }
    Ok(uris)
}

/// What a radio station needs of a provider's transport.
#[derive(Clone, Copy, Debug, PartialEq, Eq)]
pub enum RadioQueue {
    /// Nothing: the station is only shown.
    NotWanted,
    /// Adding to its queue. `queue_read` says whether the queue can be read
    /// first.
    Wanted { needs: NeededCapability, queue_read: bool },
}

/// What a radio station needs of a provider's transport, where it is to be
/// queued.
pub fn plan_radio_queue(require_queue: bool, caps: &ProviderCaps) -> (r: RadioQueue)
    ensures
        if require_queue {
            r matches RadioQueue::Wanted { needs, queue_read } && needs.name@ == "queue add"@
                && needs.offered == (caps.transport is Some && caps.transport->0.queue_add)
                && queue_read == (caps.transport is Some && caps.transport->0.queue_read)
        } else {
            r is NotWanted
        },
{
    if !require_queue {
        return RadioQueue::NotWanted;
    }
    let (offered, queue_read) = match &caps.transport {
        Some(transport) => (transport.queue_add, transport.queue_read),
        None => (false, false),
    };
    RadioQueue::Wanted { needs: NeededCapability { name: "queue add", offered }, queue_read }
}

/// What stands for a track that is not cached.
pub open spec fn stub_track(uri: Seq<char>, provider: Seq<char>) -> MediaItemModel {
    MediaItemModel {
        id: match parsed_uri(uri) {
            Ok(resource) => Some(resource.id),
            Err(_) => None,
        },
        uri,
        kind: MediaKind::Track,
        source: Some(ItemSourceModel::Provider(provider)),
        ..blank_item()
    }
}

/// The last cached item of a URI, if there is one.
pub open spec fn last_cached(cached: Seq<MediaItemModel>, uri: Seq<char>) -> Option<MediaItemModel>
    decreases cached.len(),
{
    if cached.len() == 0 {
        None
    } else if cached.last().uri == uri {
        Some(cached.last())
    } else {
        last_cached(cached.drop_last(), uri)
    }
}

/// The item of the station at a place: the cached one where this is the first
/// place of its URI, else a stub.
pub open spec fn station_item(
    uris: Seq<Seq<char>>,
    cached: Seq<MediaItemModel>,
    provider: Seq<char>,
    at: int,
) -> MediaItemModel {
    let uri = uris[at];
    if !uris.take(at).contains(uri) && last_cached(cached, uri) is Some {
        last_cached(cached, uri)->0
    } else {
        stub_track(uri, provider)
    }
}

fn find_cached(cached: &[MediaItem], uri: &str) -> (r: Option<MediaItem>)
    ensures
        opt_view(r) == last_cached(seq_view(cached@), uri@),
{
    let ghost all = seq_view(cached@);
    let mut i: usize = cached.len();
    assert(all.take(all.len() as int) =~= all);
    while i > 0
        invariant
            i <= cached@.len(),
            all == seq_view(cached@),
            last_cached(all, uri@) == last_cached(all.take(i as int), uri@),
        decreases i,
    {
        proof {
            assert(all.take(i as int).last() == cached@[i as int - 1]@);
            assert(all.take(i as int).drop_last() =~= all.take(i as int - 1));
        }
        if same_text(cached[i - 1].uri.as_str(), uri) {
            return Some(cached[i - 1].clone());
        }
        i = i - 1;
    }
    None
}

fn make_stub(uri: &str, provider: &ProviderId) -> (r: MediaItem)
    ensures
        r@ == stub_track(uri@, provider@),
{
    let mut item = MediaItem::default();
    item.id = match ResourceUri::parse(uri) {
        Ok(resource) => Some(resource.bare_id().to_owned()),
        Err(_) => None,
    };
    item.uri = uri.to_owned();
    item.source = Some(ItemSource::Provider(provider.as_str().to_owned()));
    item
}

/// The items of a station: what the cache knows of its tracks, and stubs for
/// the others.
pub fn station_items(uris: &[String], cached: &[MediaItem], provider: &ProviderId) -> (r: Vec<
    MediaItem,
>)
    ensures
        r@.len() == uris@.len(),
        forall|i: int|
            0 <= i < r@.len() ==> (#[trigger] r@[i])@ == station_item(
                texts(uris@),
                seq_view(cached@),
                provider@,
                i,
            ),
{
    let ghost all = texts(uris@);
    let mut seen: Vec<String> = Vec::new();
    let mut items: Vec<MediaItem> = Vec::new();
    let mut i: usize = 0;
    assert(texts(seen@) =~= all.take(0));
    while i < uris.len()
        invariant
            i <= uris@.len(),
            all == texts(uris@),
            texts(seen@) =~= all.take(i as int),
            items@.len() == i,
            forall|k: int|
                0 <= k < i ==> (#[trigger] items@[k])@ == station_item(
                    all,
                    seq_view(cached@),
                    provider@,
                    k,
                ),
        decreases uris@.len() - i,
    {
        let uri = uris[i].as_str();
        assert(all[i as int] == uri@);
        let repeated = list_has(seen.as_slice(), uri);
        let known = find_cached(cached, uri);
        let item = match known {
            Some(item) => if repeated {
                make_stub(uri, provider)
            } else {
                item
            },
            None => make_stub(uri, provider),
        };
        assert(item@ == station_item(all, seq_view(cached@), provider@, i as int));
        items.push(item);
        seen.push(uris[i].clone());
        i = i + 1;
    }
    items
}

/// The items of a station stand in its order, each under its own URI.
pub proof fn station_items_keep_their_order(
    uris: Seq<Seq<char>>,
    cached: Seq<MediaItemModel>,
    provider: Seq<char>,
    at: int,
)
    requires
        0 <= at < uris.len(),
    ensures
        station_item(uris, cached, provider, at).uri == uris[at],
{
    lemma_last_cached(cached, uris[at]);
}

proof fn lemma_last_cached(cached: Seq<MediaItemModel>, uri: Seq<char>)
    ensures
        last_cached(cached, uri) matches Some(item) ==> item.uri == uri,
    decreases cached.len(),
{
    if cached.len() > 0 && cached.last().uri != uri {
        lemma_last_cached(cached.drop_last(), uri);
    }
}

/// A list is asked for by what a client wants, but for no more than a page of
/// the provider holds, which is fifty items where it names no size.
pub proof fn pages_hold_what_is_wanted(limit: u32, max_page_size: Option<usize>)
    ensures
        max_page_size is None ==> episode_page_limit(limit, max_page_size) == if limit <= 50 {
            limit
        } else {
            50
        },
        max_page_size matches Some(n) ==> {
            &&& limit <= n <= u32::MAX ==> episode_page_limit(limit, max_page_size) == limit
            &&& n < limit ==> episode_page_limit(limit, max_page_size) == n
        },
{
}

/// Tagging says of an item whether it is saved and leaves everything else of
/// it alone.
pub proof fn tags_say_what_is_saved(item: MediaItemModel, saved: Seq<Seq<char>>)
    ensures
        tagged(item, saved).in_library is Some,
        tagged(item, saved).in_library == Some(true) <==> exists|i: int|
            0 <= i < saved.len() && #[trigger] saved[i] == item.uri,
        (MediaItemModel { in_library: item.in_library, ..tagged(item, saved) }) == item,
{
}

/// A station is good when it has tracks and each is a track of the provider's
/// own scheme. The first one that is not is what is told.
pub proof fn stations_hold_own_tracks(
    seed: Seq<char>,
    provider: Seq<char>,
    scheme: Seq<char>,
    tracks: Seq<UriModel>,
    n: int,
)
    ensures
        station_fault(seed, provider, scheme, tracks) is None <==> tracks.len() > 0 && (forall|
            i: int,
        |
            0 <= i < tracks.len() ==> (#[trigger] tracks[i]).scheme == scheme && tracks[i].kind
                == MediaKind::Track),
        tracks.len() == 0 ==> station_fault(seed, provider, scheme, tracks) == Some(
            FailureModel::Refused(
                "radio station returned no tracks; the provider service may have changed or `"@
                    + seed + "` has no station"@,
            ),
        ),
        0 <= n < tracks.len() && (tracks[n].scheme != scheme || tracks[n].kind != MediaKind::Track)
            && (forall|i: int|
            0 <= i < n ==> (#[trigger] tracks[i]).scheme == scheme && tracks[i].kind
                == MediaKind::Track) ==> station_fault(seed, provider, scheme, tracks) == Some(
            FailureModel::Provider(
                ProviderErrorModel::InvalidInput {
                    field: "radio.kind"@,
                    message: "provider "@ + provider
                        + " returned non-track or foreign radio resource `"@ + tracks[n].text()
                        + "`"@,
                },
            ),
        ),
{
    lemma_first_foreign_bounds(tracks, scheme);
    if 0 <= n < tracks.len() && (tracks[n].scheme != scheme || tracks[n].kind != MediaKind::Track)
        && (forall|i: int|
        0 <= i < n ==> (#[trigger] tracks[i]).scheme == scheme && tracks[i].kind
            == MediaKind::Track) {
        lemma_first_foreign(tracks, scheme, n);
    }
}

proof fn lemma_first_foreign_bounds(tracks: Seq<UriModel>, scheme: Seq<char>)
    ensures
        0 <= first_foreign(tracks, scheme) <= tracks.len(),
        forall|k: int|
            0 <= k < first_foreign(tracks, scheme) ==> (#[trigger] tracks[k]).scheme == scheme
                && tracks[k].kind == MediaKind::Track,
        first_foreign(tracks, scheme) < tracks.len() ==> !(tracks[first_foreign(
            tracks,
            scheme,
        )].scheme == scheme && tracks[first_foreign(tracks, scheme)].kind == MediaKind::Track),
    decreases tracks.len(),
{
    if tracks.len() > 0 && is_own_track(tracks[0], scheme) {
        let rest = tracks.skip(1);
        lemma_first_foreign_bounds(rest, scheme);
        assert forall|k: int| 0 <= k < first_foreign(tracks, scheme) implies (
        #[trigger] tracks[k]).scheme == scheme && tracks[k].kind == MediaKind::Track by {
            if k > 0 {
                assert(rest[k - 1] == tracks[k]);
            }
        }
    }
}

/// The first mention of a track on a station shows what the cache knows of it,
/// the last entry where there are several. Any other mention, and a track that
/// the cache does not know, is a bare track of the provider.
pub proof fn stations_show_what_the_cache_knows(
    uris: Seq<Seq<char>>,
    cached: Seq<MediaItemModel>,
    provider: Seq<char>,
    at: int,
    k: int,
)
    requires
        0 <= at < uris.len(),
    ensures
        ({
            let item = station_item(uris, cached, provider, at);
            let first = forall|j: int| 0 <= j < at ==> #[trigger] uris[j] != uris[at];
            let unknown = forall|j: int|
                0 <= j < cached.len() ==> (#[trigger] cached[j]).uri != uris[at];
            &&& first && 0 <= k < cached.len() && cached[k].uri == uris[at] && (forall|j: int|
                k < j < cached.len() ==> (#[trigger] cached[j]).uri != uris[at]) ==> item
                == cached[k]
            &&& !first || unknown ==> {
                &&& item.uri == uris[at] && item.kind == MediaKind::Track
                &&& item.source == Some(ItemSourceModel::Provider(provider))
                &&& item.name.len() == 0 && item.artists.len() == 0 && item.duration_ms == 0
                &&& match parsed_uri(uris[at]) {
                    Ok(resource) => item.id == Some(resource.id),
                    Err(_) => item.id is None,
                }
            }
        }),
{
    let uri = uris[at];
    assert(uris.take(at).contains(uri) <==> exists|j: int| 0 <= j < at && #[trigger] uris[j]
        == uri) by {
        if exists|j: int| 0 <= j < at && #[trigger] uris[j] == uri {
            let j = choose|j: int| 0 <= j < at && #[trigger] uris[j] == uri;
            assert(uris.take(at)[j] == uri);
        }
        if uris.take(at).contains(uri) {
            let j = uris.take(at).index_of(uri);
            assert(uris[j] == uri);
        }
    }
    if forall|j: int| 0 <= j < cached.len() ==> (#[trigger] cached[j]).uri != uri {
        lemma_unknown_to_the_cache(cached, uri);
    }
    if 0 <= k < cached.len() && cached[k].uri == uri && (forall|j: int|
        k < j < cached.len() ==> (#[trigger] cached[j]).uri != uri) {
        lemma_last_is_shown(cached, uri, k);
    }
}

proof fn lemma_unknown_to_the_cache(cached: Seq<MediaItemModel>, uri: Seq<char>)
    requires
        forall|j: int| 0 <= j < cached.len() ==> (#[trigger] cached[j]).uri != uri,
    ensures
        last_cached(cached, uri) is None,
    decreases cached.len(),
{
    if cached.len() > 0 {
        assert(cached.last() == cached[cached.len() - 1]);
        assert forall|j: int| 0 <= j < cached.drop_last().len() implies (
        #[trigger] cached.drop_last()[j]).uri != uri by {
            assert(cached.drop_last()[j] == cached[j]);
        }
        lemma_unknown_to_the_cache(cached.drop_last(), uri);
    }
}

proof fn lemma_last_is_shown(cached: Seq<MediaItemModel>, uri: Seq<char>, k: int)
    requires
        0 <= k < cached.len(),
        cached[k].uri == uri,
        forall|j: int| k < j < cached.len() ==> (#[trigger] cached[j]).uri != uri,
    ensures
        last_cached(cached, uri) == Some(cached[k]),
    decreases cached.len(),
{
    if k < cached.len() - 1 {
        assert(cached.last() == cached[cached.len() - 1]);
        let init = cached.drop_last();
        assert forall|j: int| k < j < init.len() implies (#[trigger] init[j]).uri != uri by {
            assert(init[j] == cached[j]);
        }
        assert(init[k] == cached[k]);
        lemma_last_is_shown(init, uri, k);
    }
}

/// Everything but an artist and a show can go into a queue.
pub proof fn artists_and_shows_are_not_queued(kind: MediaKind)
    ensures
        match kind {
            MediaKind::Track => is_queueable(kind),
            MediaKind::Episode => is_queueable(kind),
            MediaKind::Album => is_queueable(kind),
            MediaKind::Playlist => is_queueable(kind),
            MediaKind::Artist => !is_queueable(kind),
            MediaKind::Show => !is_queueable(kind),
        },
{
}

/// A station is queued as the texts of its tracks, one for one and in order.
pub proof fn stations_are_queued_in_order(tracks: Seq<UriModel>, i: int)
    requires
        0 <= i < tracks.len(),
    ensures
        uri_texts(tracks).len() == tracks.len(),
        uri_texts(tracks)[i] == tracks[i].scheme + seq![':'] + tracks[i].kind.name() + seq![':']
            + tracks[i].id,
{
}

/// A resource of another kind is refused with the kind that was wanted, its
/// own kind and its text.
pub proof fn wrong_kinds_are_told(wanted: MediaKind, field: Seq<char>, uri: UriModel)
    ensures
        wrong_kind(wanted, field, uri) == FailureModel::Provider(
            ProviderErrorModel::InvalidInput {
                field,
                message: "expected URI of kind "@ + wanted.name() + ", got "@ + uri.kind.name()
                    + " `"@ + uri.text() + "`"@,
            },
        ),
{
}

/// Pages, tags and stations are answered as is told of them.
pub proof fn library_calls_answer_as_told()
    ensures
        forall|limit: u32, offset: u32, max_page_size: Option<usize>, answer: PageRequest|
            #[trigger] call_ensures(
                show_episodes_page,
                (limit, offset, max_page_size),
                answer,
            ) ==> {
                &&& answer@ == (PageRequestModel {
                    limit: episode_page_limit(limit, max_page_size),
                    offset: offset as u64,
                    cursor: None,
                })
            },
        forall|uri: &ResourceUri, wanted: MediaKind, field: &str, answer: Result<(), Failure>|
            #[trigger] call_ensures(require_resource_kind, (uri, wanted, field), answer) ==> {
                &&& match answer {
                    Ok(_) => uri@.kind == wanted,
                    Err(error) => uri@.kind != wanted && error@ == wrong_kind(wanted, field@, uri@),
                }
            },
        forall|items: &mut Vec<MediaItem>, saved: &[String]|
            #[trigger] call_ensures(tag_saved, (items, saved), ()) ==> {
                &&& mut_ref_future(items)@.len() == mut_ref_current(items)@.len()
                &&& forall|i: int|
                    0 <= i < mut_ref_future(items)@.len() ==> (#[trigger] mut_ref_future(items)@[i])@ == tagged(
                        mut_ref_current(items)@[i]@,
                        texts(saved@),
                    )
            },
        forall|
            seed: &str,
            provider: &ProviderId,
            scheme: &UriScheme,
            tracks: &[ResourceUri],
            answer: Result<Vec<String>, Failure>,
        |
            #[trigger] call_ensures(station_uris, (seed, provider, scheme, tracks), answer) ==> {
                &&& match answer {
                    Ok(uris) => station_fault(seed@, provider@, scheme@, seq_view(tracks@)) is None
                        && texts(uris@) == uri_texts(seq_view(tracks@)),
                    Err(error) => station_fault(seed@, provider@, scheme@, seq_view(tracks@)) == Some(
                        error@,
                    ),
                }
            },
        forall|
            uris: &[String],
            cached: &[MediaItem],
            provider: &ProviderId,
            answer: Vec<MediaItem>,
        |
            #[trigger] call_ensures(station_items, (uris, cached, provider), answer) ==> {
                &&& answer@.len() == uris@.len()
                &&& forall|i: int|
                    0 <= i < answer@.len() ==> (#[trigger] answer@[i])@ == station_item(
                        texts(uris@),
                        seq_view(cached@),
                        provider@,
                        i,
                    )
            },
{
}

/// What is saved is what was named, or what plays where that was asked for;
/// where neither is there, that nothing is playing is told.
pub proof fn saves_go_to_what_was_meant(
    uri: Option<String>,
    current: bool,
    playing: Option<String>,
    answer: Result<String, Failure>,
)
    requires
        call_ensures(save_target, (uri, current, playing), answer),
    ensures
        uri is Some ==> answer is Ok && answer->Ok_0@ == uri->0@,
        uri is None && current && playing is Some ==> answer is Ok && answer->Ok_0@ == playing->0@,
        uri is None && !(current && playing is Some) ==> answer is Err && answer->Err_0@
            == FailureModel::Refused("nothing is playing"@),
{
}

/// A track is looked up, an episode stands for itself, a playlist and an album
/// are read, each where the provider can do that; anything else cannot be
/// queued, and a text that is no identifier is told.
pub proof fn selections_are_read_by_their_kind(
    uri: &str,
    caps: &ProviderCaps,
    answer: Result<(ResourceUri, SelectionPlan), Failure>,
)
    requires
        call_ensures(plan_selection, (uri, caps), answer),
    ensures
        answer is Ok <==> parsed_uri(uri@) is Ok && !(parsed_uri(uri@)->Ok_0.kind is Artist)
            && !(parsed_uri(uri@)->Ok_0.kind is Show),
        answer matches Ok((found, plan)) ==> {
            &&& found@.text() == uri@
            &&& plan is Lookup <==> found@.kind is Track
            &&& plan is FromUri <==> found@.kind is Episode
            &&& plan is PlaylistItems <==> found@.kind is Playlist
            &&& plan is AlbumTracks <==> found@.kind is Album
            &&& plan matches SelectionPlan::PlaylistItems { needs } ==> needs.offered
                == caps.playlists.item_read
            &&& plan matches SelectionPlan::AlbumTracks { needs } ==> needs.offered
                == caps.catalog.album_tracks
            &&& plan matches SelectionPlan::Lookup { needs } ==> needs.offered
                == caps.catalog.lookup_kinds@.contains(MediaKind::Track)
        },
{
    parsed_text_is_canonical(uri@);
}

/// A list is cut to what is wanted and keeps its order.
pub proof fn lists_are_cut_to_what_is_wanted(
    items: Vec<MediaItem>,
    limit: u32,
    answer: Vec<MediaItem>,
    i: int,
)
    requires
        call_ensures(take_items, (items, limit), answer),
    ensures
        items@.len() <= limit ==> answer@ == items@,
        items@.len() > limit ==> answer@.len() == limit,
        0 <= i < answer@.len() ==> answer@[i] == items@[i],
{
}

} // verus!
