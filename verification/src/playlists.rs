//! Playlists: finding them, checking what is asked of them before anything is
//! written, and planning what can be undone.

use vstd::prelude::*;
use vstd::string::*;

use crate::exchange::{
    InsertionModel, ItemRefModel, Mutation, MutationModel, PlaylistInsertion, PlaylistItemRef,
};
use crate::failure::{Failure, FailureModel, bad_input};
use crate::library::{ListPlan, require_resource_kind, wrong_kind};
use crate::media::{MediaKind, Playlist, PlaylistModel};
use crate::provider::{ProviderError, ProviderErrorModel, ProviderId};
use crate::text::{
    concat2, concat3, concat4, concat5, lemma_seq_view_push, lemma_texts_push, lowered, opt_is,
    opt_str, opt_text, opt_view, res_view, same_ignoring_case, same_text, seq_view, texts,
    trim_text, trimmed,
};
use crate::uri::{
    ResourceUri, UriErrorModel, UriModel, UriScheme, built_uri, canonical_text_is_injective,
    canonical_text_parses_back, is_bare_id, is_id_char, is_scheme, parsed_text_is_canonical,
    parsed_uri,
};

verus! {

broadcast use {lemma_seq_view_push, lemma_texts_push};

/// How many bytes an encoded cover may have.
pub const MAX_IMAGE_BASE64_BYTES: usize = 262_144;

// ---------------------------------------------------------------------------
// Finding a playlist
// ---------------------------------------------------------------------------

/// Whether a playlist is meant by a text: its id, its name in any case, its
/// canonical identifier, or the bare id in its identifier.
pub open spec fn is_meant(playlist: PlaylistModel, value: Seq<char>) -> bool {
    ||| playlist.id == value
    ||| lowered(playlist.name) == lowered(value)
    ||| (parsed_uri(value) is Ok && parsed_uri(value)->Ok_0.text() == playlist.id)
    ||| (parsed_uri(playlist.id) is Ok && parsed_uri(playlist.id)->Ok_0.id == value)
}

/// The first playlist that a text means, by its place; the length where it
/// means none.
pub open spec fn first_meant(playlists: Seq<PlaylistModel>, value: Seq<char>) -> int
    decreases playlists.len(),
{
    if playlists.len() == 0 || is_meant(playlists[0], value) {
        0
    } else {
        1 + first_meant(playlists.skip(1), value)
    }
}

proof fn lemma_first_meant(playlists: Seq<PlaylistModel>, value: Seq<char>, i: int)
    requires
        0 <= i <= playlists.len(),
        forall|k: int| 0 <= k < i ==> !is_meant(#[trigger] playlists[k], value),
        i < playlists.len() ==> is_meant(playlists[i], value),
    ensures
        first_meant(playlists, value) == i,
    decreases i,
{
    if i > 0 {
        assert forall|k: int| 0 <= k < i - 1 implies !is_meant(
            #[trigger] playlists.skip(1)[k],
            value,
        ) by {
            assert(playlists.skip(1)[k] == playlists[k + 1]);
        }
        lemma_first_meant(playlists.skip(1), value, i - 1);
    }
}

fn means(playlist: &Playlist, value: &str, canonical: &Option<String>) -> (r: bool)
    requires
        opt_text(*canonical) == (match parsed_uri(value@) {
            Ok(uri) => Some(uri.text()),
            Err(_) => None,
        }),
    ensures
        r == is_meant(playlist@, value@),
{
    if same_text(playlist.id.as_str(), value) || same_ignoring_case(playlist.name.as_str(), value)
        || opt_is(canonical, playlist.id.as_str()) {
        return true;
    }
    match ResourceUri::parse(playlist.id.as_str()) {
        Ok(uri) => same_text(uri.bare_id(), value),
        Err(_) => false,
    }
}

/// The playlist that a text means.
pub fn resolve_playlist(playlists: &[Playlist], value: &str) -> (r: Result<Playlist, Failure>)
    ensures
        ({
            let all = seq_view(playlists@);
            let i = first_meant(all, value@);
            match r {
                Ok(playlist) => i < all.len() && playlist@ == all[i],
                Err(error) => i >= all.len() && error@ == FailureModel::Refused(
                    "no playlist matching `"@ + value@ + "`"@,
                ),
            }
        }),
{
    let ghost all = seq_view(playlists@);
    let canonical: Option<String> = match ResourceUri::parse(value) {
        Ok(uri) => Some(uri.as_uri()),
        Err(_) => None,
    };
    let mut i: usize = 0;
    while i < playlists.len()
        invariant
            i <= playlists@.len(),
            all == seq_view(playlists@),
            opt_text(canonical) == (match parsed_uri(value@) {
                Ok(uri) => Some(uri.text()),
                Err(_) => None,
            }),
            forall|k: int| 0 <= k < i ==> !is_meant(#[trigger] all[k], value@),
        decreases playlists@.len() - i,
    {
        assert(all[i as int] == playlists@[i as int]@);
        if means(&playlists[i], value, &canonical) {
            proof {
                lemma_first_meant(all, value@, i as int);
            }
            return Ok(playlists[i].clone());
        }
        i = i + 1;
    }
    proof {
        lemma_first_meant(all, value@, all.len() as int);
    }
    Err(Failure::Refused(concat3("no playlist matching `", value, "`")))
}

/// The identifier of a playlist of a provider, from an identifier or a bare
/// id.
pub open spec fn playlist_resource(
    provider: Seq<char>,
    scheme: Seq<char>,
    value: Seq<char>,
) -> Result<UriModel, FailureModel> {
    let found = match parsed_uri(value) {
        Ok(uri) => Ok(uri),
        Err(_) => built_uri(scheme, MediaKind::Playlist, value),
    };
    match found {
        Err(error) => Err(FailureModel::Uri(error)),
        Ok(uri) => if uri.kind == MediaKind::Playlist && uri.scheme == scheme {
            Ok(uri)
        } else {
            Err(
                bad_input(
                    "playlist"@,
                    "playlist `"@ + uri.text() + "` does not belong to provider "@ + provider,
                ),
            )
        },
    }
}

/// The identifier of a playlist of a provider.
pub fn playlist_resource_for_provider(
    provider: &ProviderId,
    scheme: &UriScheme,
    value: &str,
) -> (r: Result<ResourceUri, Failure>)
    ensures
        res_view(r) == playlist_resource(provider@, scheme@, value@),
{
    let found = match ResourceUri::parse(value) {
        Ok(uri) => Ok(uri),
        Err(_) => ResourceUri::new(scheme.clone(), MediaKind::Playlist, value),
    };
    match found {
        Err(error) => Err(Failure::Uri(error)),
        Ok(uri) => {
            if uri.kind() == MediaKind::Playlist && uri.scheme().same(scheme) {
                Ok(uri)
            } else {
                let text = uri.as_uri();
                let message = concat4(
                    "playlist `",
                    text.as_str(),
                    "` does not belong to provider ",
                    provider.as_str(),
                );
                Err(Failure::invalid_input("playlist", message.as_str()))
            }
        },
    }
}

/// Playlists of a provider with their ids in canonical form, or what is wrong
/// with the first that has none.
pub open spec fn normalized(
    provider: Seq<char>,
    scheme: Seq<char>,
    playlists: Seq<PlaylistModel>,
) -> Result<Seq<PlaylistModel>, FailureModel>
    decreases playlists.len(),
{
    if playlists.len() == 0 {
        Ok(Seq::empty())
    } else {
        match normalized(provider, scheme, playlists.drop_last()) {
            Err(error) => Err(error),
            Ok(done) => match playlist_resource(provider, scheme, playlists.last().id) {
                Err(error) => Err(error),
                Ok(uri) => Ok(
                    done.push(PlaylistModel { id: uri.text(), ..playlists.last() }),
                ),
            },
        }
    }
}

proof fn lemma_normalized_error(
    provider: Seq<char>,
    scheme: Seq<char>,
    playlists: Seq<PlaylistModel>,
    n: int,
)
    requires
        0 <= n <= playlists.len(),
        normalized(provider, scheme, playlists.take(n)) is Err,
    ensures
        normalized(provider, scheme, playlists) == normalized(provider, scheme, playlists.take(n)),
    decreases playlists.len() - n,
{
    if n < playlists.len() {
        assert(playlists.take(n + 1).drop_last() =~= playlists.take(n));
        lemma_normalized_error(provider, scheme, playlists, n + 1);
    } else {
        assert(playlists.take(n) =~= playlists);
    }
}

/// The view of a list of playlists, or of a failure.
pub open spec fn playlists_view(r: Result<Vec<Playlist>, Failure>) -> Result<
    Seq<PlaylistModel>,
    FailureModel,
> {
    match r {
        Ok(playlists) => Ok(seq_view(playlists@)),
        Err(error) => Err(error@),
    }
}

/// Playlists of a provider with their ids in canonical form.
pub fn normalize_provider_playlist_list(
    provider: &ProviderId,
    scheme: &UriScheme,
    playlists: &[Playlist],
) -> (r: Result<Vec<Playlist>, Failure>)
    ensures
        playlists_view(r) == normalized(provider@, scheme@, seq_view(playlists@)),
{
    let ghost all = seq_view(playlists@);
    let mut out: Vec<Playlist> = Vec::new();
    let mut i: usize = 0;
    proof {
        assert(all.take(0) =~= Seq::<PlaylistModel>::empty());
        assert(seq_view(out@) =~= Seq::<PlaylistModel>::empty());
    }
    while i < playlists.len()
        invariant
            i <= playlists@.len(),
            all == seq_view(playlists@),
            normalized(provider@, scheme@, all.take(i as int)) == Ok::<
                Seq<PlaylistModel>,
                FailureModel,
            >(seq_view(out@)),
        decreases playlists@.len() - i,
    {
        proof {
            assert(all.take(i as int + 1).drop_last() =~= all.take(i as int));
            assert(all.take(i as int + 1).last() == playlists@[i as int]@);
        }
        match playlist_resource_for_provider(provider, scheme, playlists[i].id.as_str()) {
            Err(error) => {
                proof {
                    lemma_normalized_error(provider@, scheme@, all, i as int + 1);
                }
                return Err(error);
            },
            Ok(uri) => {
                let mut playlist = playlists[i].clone();
                playlist.id = uri.as_uri();
                out.push(playlist);
            },
        }
        i = i + 1;
    }
    assert(all.take(all.len() as int) =~= all);
    Ok(out)
}

/// Checks that a provider answered with the playlist that was asked for.
pub fn check_returned_playlist(
    provider: &ProviderId,
    requested: &ResourceUri,
    playlist: &Playlist,
) -> (r: Result<(), Failure>)
    ensures
        match r {
            Ok(_) => playlist.id@ == requested@.text(),
            Err(error) => playlist.id@ != requested@.text() && error@ == bad_input(
                "playlist"@,
                "provider "@ + provider@ + " returned playlist `"@ + playlist.id@
                    + "` for requested `"@ + requested@.text() + "`"@,
            ),
        },
{
    let text = requested.as_uri();
    if same_text(playlist.id.as_str(), text.as_str()) {
        return Ok(());
    }
    let mut message = concat5(
        "provider ",
        provider.as_str(),
        " returned playlist `",
        playlist.id.as_str(),
        "` for requested `",
    );
    message.append(text.as_str());
    message.append("`");
    Err(Failure::invalid_input("playlist", message.as_str()))
}

/// Checks a provider that was asked for against the one that owns a
/// playlist's namespace.
pub fn check_playlist_owner(
    requested: Option<&ProviderId>,
    owner: &ProviderId,
    scheme: &UriScheme,
) -> (r: Result<(), Failure>)
    ensures
        match r {
            Ok(_) => requested is None || requested->0@ == owner@,
            Err(error) => requested is Some && requested->0@ != owner@ && error@ == bad_input(
                "provider"@,
                "provider `"@ + requested->0@ + "` conflicts with playlist URI scheme `"@ + scheme@
                    + "` owned by `"@ + owner@ + "`"@,
            ),
        },
{
    match requested {
        None => Ok(()),
        Some(id) => {
            if id.same(owner) {
                return Ok(());
            }
            let mut message = concat5(
                "provider `",
                id.as_str(),
                "` conflicts with playlist URI scheme `",
                scheme.label(),
                "` owned by `",
            );
            message.append(owner.as_str());
            message.append("`");
            Err(Failure::invalid_input("provider", message.as_str()))
        },
    }
}

/// How a request for the playlists is answered: from the cache where it has
/// some, with a refresh behind it. An empty cache proves nothing, so that the
/// provider is asked.
pub fn plan_playlists_list(cache_is_empty: bool) -> (r: ListPlan)
    ensures
        r == if cache_is_empty {
            ListPlan::Fetch
        } else {
            ListPlan::Cached { refresh: true }
        },
{
    if cache_is_empty {
        ListPlan::Fetch
    } else {
        ListPlan::Cached { refresh: true }
    }
}

/// How a request for the tracks of a playlist is answered. A client that waits
/// gets the provider's answer; one that does not gets what is cached, or else
/// nothing until a refresh is through. A playlist that is not cached counts as
/// one without cached tracks.
pub fn plan_playlist_tracks(wait: bool, cache_is_empty: bool) -> (r: ListPlan)
    ensures
        r == if wait {
            ListPlan::Fetch
        } else if cache_is_empty {
            ListPlan::Pending
        } else {
            ListPlan::Cached { refresh: false }
        },
{
    if wait {
        ListPlan::Fetch
    } else if cache_is_empty {
        ListPlan::Pending
    } else {
        ListPlan::Cached { refresh: false }
    }
}

/// Whether a request for the tracks of a playlist needs the sign-in of its
/// provider: unless it is answered from the cache.
pub fn tracks_need_sign_in(plan: ListPlan) -> (r: bool)
    ensures
        r == !(plan is Cached),
{
    match plan {
        ListPlan::Cached { .. } => false,
        _ => true,
    }
}

/// How a playlist that a client names is found.
#[derive(Debug, PartialEq, Eq)]
pub enum PlaylistLookup {
    /// It is named by its identifier: the provider is asked for it alone.
    ByUri(ResourceUri),
    /// It is named otherwise: the provider's playlists are searched.
    ByName,
}

/// How a playlist that a client names is found. An identifier of anything
/// else is refused before a provider is asked.
pub fn plan_playlist_lookup(value: &str) -> (r: Result<PlaylistLookup, Failure>)
    ensures
        match parsed_uri(value@) {
            Ok(uri) => if uri.kind == MediaKind::Playlist {
                r matches Ok(PlaylistLookup::ByUri(found)) && found@ == uri
            } else {
                r is Err && r->Err_0@ == wrong_kind(MediaKind::Playlist, "playlist"@, uri)
            },
            Err(_) => r matches Ok(lookup) && lookup is ByName,
        },
{
    match ResourceUri::parse(value) {
        Ok(uri) => match require_resource_kind(&uri, MediaKind::Playlist, "playlist") {
            Ok(_) => Ok(PlaylistLookup::ByUri(uri)),
            Err(error) => Err(error),
        },
        Err(_) => Ok(PlaylistLookup::ByName),
    }
}

/// What the answer of a provider that was asked for one playlist comes to: that
/// playlist with its id in canonical form, or why it is not the one.
pub open spec fn looked_up(
    provider: Seq<char>,
    scheme: Seq<char>,
    requested: UriModel,
    answer: Option<PlaylistModel>,
) -> Result<PlaylistModel, FailureModel> {
    match answer {
        None => Err(
            FailureModel::Provider(ProviderErrorModel::NotFound { resource: requested.text() }),
        ),
        Some(playlist) => match playlist_resource(provider, scheme, playlist.id) {
            Err(error) => Err(error),
            Ok(uri) => if uri.text() == requested.text() {
                Ok(PlaylistModel { id: uri.text(), ..playlist })
            } else {
                Err(
                    bad_input(
                        "playlist"@,
                        "provider "@ + provider + " returned playlist `"@ + uri.text()
                            + "` for requested `"@ + requested.text() + "`"@,
                    ),
                )
            },
        },
    }
}

/// The playlist that a provider answered with when it was asked for one.
pub fn looked_up_playlist(
    provider: &ProviderId,
    scheme: &UriScheme,
    requested: &ResourceUri,
    answer: Option<Playlist>,
) -> (r: Result<Playlist, Failure>)
    ensures
        res_view(r) == looked_up(provider@, scheme@, requested@, opt_view(answer)),
{
    let mut playlist = match answer {
        Some(playlist) => playlist,
        None => return Err(
            Failure::Provider(ProviderError::NotFound { resource: requested.as_uri() }),
        ),
    };
    match playlist_resource_for_provider(provider, scheme, playlist.id.as_str()) {
        Err(error) => Err(error),
        Ok(uri) => {
            playlist.id = uri.as_uri();
            match check_returned_playlist(provider, requested, &playlist) {
                Ok(_) => Ok(playlist),
                Err(error) => Err(error),
            }
        },
    }
}

/// What searching the playlists of a provider for one comes to: the first that
/// is meant, with its identifier.
pub open spec fn found_by_name(
    provider: Seq<char>,
    scheme: Seq<char>,
    playlists: Seq<PlaylistModel>,
    value: Seq<char>,
) -> Result<(PlaylistModel, UriModel), FailureModel> {
    match normalized(provider, scheme, playlists) {
        Err(error) => Err(error),
        Ok(all) => {
            let i = first_meant(all, value);
            if i >= all.len() {
                Err(FailureModel::Refused("no playlist matching `"@ + value + "`"@))
            } else {
                match playlist_resource(provider, scheme, all[i].id) {
                    Err(error) => Err(error),
                    Ok(uri) => Ok((all[i], uri)),
                }
            }
        },
    }
}

/// The view of a playlist with its identifier, or of a failure.
pub open spec fn found_view(r: Result<(Playlist, ResourceUri), Failure>) -> Result<
    (PlaylistModel, UriModel),
    FailureModel,
> {
    match r {
        Ok((playlist, uri)) => Ok((playlist@, uri@)),
        Err(error) => Err(error@),
    }
}

/// The playlist of a provider that a client names otherwise than by its
/// identifier.
pub fn named_playlist(
    provider: &ProviderId,
    scheme: &UriScheme,
    playlists: &[Playlist],
    value: &str,
) -> (r: Result<(Playlist, ResourceUri), Failure>)
    ensures
        found_view(r) == found_by_name(provider@, scheme@, seq_view(playlists@), value@),
{
    let all = match normalize_provider_playlist_list(provider, scheme, playlists) {
        Ok(all) => all,
        Err(error) => return Err(error),
    };
    match resolve_playlist(all.as_slice(), value) {
        Err(error) => Err(error),
        Ok(playlist) => match playlist_resource_for_provider(
            provider,
            scheme,
            playlist.id.as_str(),
        ) {
            Err(error) => Err(error),
            Ok(uri) => Ok((playlist, uri)),
        },
    }
}

/// The version of a playlist that is known after another look at it: the
/// provider's where it gave one, else the one that was cached.
pub fn observed_version(list_supported: bool, fetched: Option<String>, cached: Option<String>) -> (r:
    Option<String>)
    ensures
        r == if list_supported && fetched is Some {
            fetched
        } else {
            cached
        },
{
    if list_supported {
        match fetched {
            Some(version) => Some(version),
            None => cached,
        }
    } else {
        cached
    }
}

// ---------------------------------------------------------------------------
// Checks before writing
// ---------------------------------------------------------------------------

/// An item for a playlist of a provider, or why it is none.
pub open spec fn playlist_item(
    provider: Seq<char>,
    scheme: Seq<char>,
    value: Seq<char>,
) -> Result<UriModel, FailureModel> {
    match parsed_uri(value) {
        Err(error) => Err(FailureModel::Uri(error)),
        Ok(uri) => if uri.kind != MediaKind::Track && uri.kind != MediaKind::Episode {
            Err(
                bad_input(
                    "uris"@,
                    "playlist items must be track or episode URIs, got "@ + uri.kind.name(),
                ),
            )
        } else if uri.scheme != scheme {
            Err(
                bad_input(
                    "uri"@,
                    "resource "@ + uri.text() + " belongs to `"@ + uri.scheme
                        + "`, not provider "@ + provider + " (`"@ + scheme + "`)"@,
                ),
            )
        } else {
            Ok(uri)
        },
    }
}

/// An item for a playlist of a provider: a track or an episode of its own.
pub fn preflight_playlist_item_uri(
    provider: &ProviderId,
    scheme: &UriScheme,
    value: &str,
) -> (r: Result<ResourceUri, Failure>)
    ensures
        res_view(r) == playlist_item(provider@, scheme@, value@),
{
    let resource = match ResourceUri::parse(value) {
        Ok(resource) => resource,
        Err(error) => return Err(Failure::Uri(error)),
    };
    let kind = resource.kind();
    if kind != MediaKind::Track && kind != MediaKind::Episode {
        let message = concat2(
            "playlist items must be track or episode URIs, got ",
            kind.label(),
        );
        return Err(Failure::invalid_input("uris", message.as_str()));
    }
    if !resource.scheme().same(scheme) {
        let text = resource.as_uri();
        let mut message = concat5(
            "resource ",
            text.as_str(),
            " belongs to `",
            resource.scheme().label(),
            "`, not provider ",
        );
        message.append(provider.as_str());
        message.append(" (`");
        message.append(scheme.label());
        message.append("`)");
        return Err(Failure::invalid_input("uri", message.as_str()));
    }
    Ok(resource)
}

/// The identifier that stands for the playlist while a mutation is checked.
pub open spec fn preflight_uri(scheme: Seq<char>) -> UriModel {
    UriModel { scheme, kind: MediaKind::Playlist, id: "preflight"@ }
}

fn playlist_preflight_resource(scheme: &UriScheme) -> (r: ResourceUri)
    ensures
        r@ == preflight_uri(scheme@),
{
    proof {
        reveal_strlit("preflight");
    }
    ResourceUri::of_valid_id(scheme.clone(), MediaKind::Playlist, "preflight")
}

/// All items for a playlist of a provider, or what is wrong with the first
/// that is none.
pub open spec fn playlist_items(
    provider: Seq<char>,
    scheme: Seq<char>,
    values: Seq<Seq<char>>,
) -> Result<Seq<UriModel>, FailureModel>
    decreases values.len(),
{
    if values.len() == 0 {
        Ok(Seq::empty())
    } else {
        match playlist_items(provider, scheme, values.drop_last()) {
            Err(error) => Err(error),
            Ok(done) => match playlist_item(provider, scheme, values.last()) {
                Err(error) => Err(error),
                Ok(uri) => Ok(done.push(uri)),
            },
        }
    }
}

proof fn lemma_items_error(
    provider: Seq<char>,
    scheme: Seq<char>,
    values: Seq<Seq<char>>,
    n: int,
)
    requires
        0 <= n <= values.len(),
        playlist_items(provider, scheme, values.take(n)) is Err,
    ensures
        playlist_items(provider, scheme, values) == playlist_items(
            provider,
            scheme,
            values.take(n),
        ),
    decreases values.len() - n,
{
    if n < values.len() {
        assert(values.take(n + 1).drop_last() =~= values.take(n));
        lemma_items_error(provider, scheme, values, n + 1);
    } else {
        assert(values.take(n) =~= values);
    }
}

/// The view of a list of identifiers, or of a failure.
pub open spec fn uris_view(r: Result<Vec<ResourceUri>, Failure>) -> Result<
    Seq<UriModel>,
    FailureModel,
> {
    match r {
        Ok(uris) => Ok(seq_view(uris@)),
        Err(error) => Err(error@),
    }
}

fn all_playlist_items(provider: &ProviderId, scheme: &UriScheme, values: &[String]) -> (r: Result<
    Vec<ResourceUri>,
    Failure,
>)
    ensures
        uris_view(r) == playlist_items(provider@, scheme@, texts(values@)),
{
    let ghost all = texts(values@);
    let mut out: Vec<ResourceUri> = Vec::new();
    let mut i: usize = 0;
    proof {
        assert(all.take(0) =~= Seq::<Seq<char>>::empty());
        assert(seq_view(out@) =~= Seq::<UriModel>::empty());
    }
    while i < values.len()
        invariant
            i <= values@.len(),
            all == texts(values@),
            playlist_items(provider@, scheme@, all.take(i as int)) == Ok::<
                Seq<UriModel>,
                FailureModel,
            >(seq_view(out@)),
        decreases values@.len() - i,
    {
        proof {
            assert(all.take(i as int + 1).drop_last() =~= all.take(i as int));
            assert(all.take(i as int + 1).last() == values@[i as int]@);
        }
        match preflight_playlist_item_uri(provider, scheme, values[i].as_str()) {
            Err(error) => {
                proof {
                    lemma_items_error(provider@, scheme@, all, i as int + 1);
                }
                return Err(error);
            },
            Ok(uri) => {
                out.push(uri);
            },
        }
        i = i + 1;
    }
    assert(all.take(all.len() as int) =~= all);
    Ok(out)
}

/// Insertions of these resources at the end.
pub open spec fn insertions(uris: Seq<UriModel>) -> Seq<InsertionModel> {
    Seq::new(uris.len(), |i: int| InsertionModel { uri: uris[i], position: None })
}

fn insertions_of(uris: &[ResourceUri]) -> (r: Vec<PlaylistInsertion>)
    ensures
        seq_view(r@) == insertions(seq_view(uris@)),
{
    let ghost all = insertions(seq_view(uris@));
    let mut out: Vec<PlaylistInsertion> = Vec::new();
    let mut i: usize = 0;
    assert(seq_view(out@) =~= all.take(0));
    while i < uris.len()
        invariant
            i <= uris@.len(),
            all == insertions(seq_view(uris@)),
            seq_view(out@) =~= all.take(i as int),
        decreases uris@.len() - i,
    {
        out.push(PlaylistInsertion { uri: uris[i].clone(), position: None });
        i = i + 1;
    }
    assert(all.take(all.len() as int) =~= all);
    out
}

/// What is to be added, and the mutation that the provider's capabilities are
/// checked with first.
#[derive(Debug)]
pub struct AddPreflight {
    pub items: Vec<PlaylistInsertion>,
    pub check: Mutation,
}

/// Checks what is to be added to a playlist of a provider.
pub fn preflight_playlist_add_items(
    provider: &ProviderId,
    scheme: &UriScheme,
    uris: &[String],
) -> (r: Result<AddPreflight, Failure>)
    ensures
        match r {
            Ok(preflight) => {
                &&& uris@.len() > 0
                &&& playlist_items(provider@, scheme@, texts(uris@)) matches Ok(items) && {
                    &&& seq_view(preflight.items@) == insertions(items)
                    &&& preflight.check@ == (MutationModel::PlaylistAdd {
                        playlist_uri: preflight_uri(scheme@),
                        items: insertions(items),
                        expected_version: None,
                    })
                }
            },
            Err(error) => error@ == if uris@.len() == 0 {
                FailureModel::Refused("no track URIs to add"@)
            } else {
                playlist_items(provider@, scheme@, texts(uris@))->Err_0
            } && (uris@.len() == 0 || playlist_items(provider@, scheme@, texts(uris@)) is Err),
        },
{
    if uris.len() == 0 {
        return Err(Failure::refused("no track URIs to add"));
    }
    match all_playlist_items(provider, scheme, uris) {
        Err(error) => Err(error),
        Ok(resources) => Ok(
            AddPreflight {
                items: insertions_of(resources.as_slice()),
                check: Mutation::PlaylistAdd {
                    playlist_uri: playlist_preflight_resource(scheme),
                    items: insertions_of(resources.as_slice()),
                    expected_version: None,
                },
            },
        ),
    }
}

/// Removals of these resources, each at one position: a check never stands
/// for removing every occurrence.
pub open spec fn probing_refs(uris: Seq<UriModel>) -> Seq<ItemRefModel> {
    Seq::new(uris.len(), |i: int| ItemRefModel { uri: uris[i], positions: seq![0u32] })
}

fn probing_refs_of(uris: &[ResourceUri]) -> (r: Vec<PlaylistItemRef>)
    ensures
        seq_view(r@) == probing_refs(seq_view(uris@)),
{
    let ghost all = probing_refs(seq_view(uris@));
    let mut out: Vec<PlaylistItemRef> = Vec::new();
    let mut i: usize = 0;
    assert(seq_view(out@) =~= all.take(0));
    while i < uris.len()
        invariant
            i <= uris@.len(),
            all == probing_refs(seq_view(uris@)),
            seq_view(out@) =~= all.take(i as int),
        decreases uris@.len() - i,
    {
        let mut positions: Vec<u32> = Vec::new();
        positions.push(0);
        assert(positions@ =~= seq![0u32]);
        out.push(PlaylistItemRef { uri: uris[i].clone(), positions });
        i = i + 1;
    }
    assert(all.take(all.len() as int) =~= all);
    out
}

/// What is to be removed, and the mutation that the provider's capabilities
/// are checked with first.
#[derive(Debug)]
pub struct RemovePreflight {
    pub items: Vec<ResourceUri>,
    pub check: Mutation,
}

/// Checks what is to be removed from a playlist of a provider.
pub fn preflight_playlist_remove_items(
    provider: &ProviderId,
    scheme: &UriScheme,
    uris: &[String],
) -> (r: Result<RemovePreflight, Failure>)
    ensures
        match r {
            Ok(preflight) => {
                &&& uris@.len() > 0
                &&& playlist_items(provider@, scheme@, texts(uris@)) matches Ok(items) && {
                    &&& seq_view(preflight.items@) == items
                    &&& preflight.check@ == (MutationModel::PlaylistRemove {
                        playlist_uri: preflight_uri(scheme@),
                        items: probing_refs(items),
                        expected_version: None,
                    })
                }
            },
            Err(error) => error@ == if uris@.len() == 0 {
                FailureModel::Refused("no track URIs to remove"@)
            } else {
                playlist_items(provider@, scheme@, texts(uris@))->Err_0
            } && (uris@.len() == 0 || playlist_items(provider@, scheme@, texts(uris@)) is Err),
        },
{
    if uris.len() == 0 {
        return Err(Failure::refused("no track URIs to remove"));
    }
    match all_playlist_items(provider, scheme, uris) {
        Err(error) => Err(error),
        Ok(resources) => {
            let check = Mutation::PlaylistRemove {
                playlist_uri: playlist_preflight_resource(scheme),
                items: probing_refs_of(resources.as_slice()),
                expected_version: None,
            };
            Ok(RemovePreflight { items: resources, check })
        },
    }
}

/// The tracks that a new playlist starts with, or what is wrong with the first
/// that is none.
pub open spec fn creation_items(values: Seq<Seq<char>>) -> Result<Seq<UriModel>, FailureModel>
    decreases values.len(),
{
    if values.len() == 0 {
        Ok(Seq::empty())
    } else {
        match creation_items(values.drop_last()) {
            Err(error) => Err(error),
            Ok(done) => match parsed_uri(values.last()) {
                Err(error) => Err(FailureModel::Uri(error)),
                Ok(uri) => if uri.kind != MediaKind::Track {
                    Err(
                        FailureModel::Refused(
                            "playlist creation candidates must be track URIs: "@ + uri.text(),
                        ),
                    )
                } else {
                    Ok(done.push(uri))
                },
            },
        }
    }
}

proof fn lemma_creation_error(values: Seq<Seq<char>>, n: int)
    requires
        0 <= n <= values.len(),
        creation_items(values.take(n)) is Err,
    ensures
        creation_items(values) == creation_items(values.take(n)),
    decreases values.len() - n,
{
    if n < values.len() {
        assert(values.take(n + 1).drop_last() =~= values.take(n));
        lemma_creation_error(values, n + 1);
    } else {
        assert(values.take(n) =~= values);
    }
}

fn all_creation_items(values: &[String]) -> (r: Result<Vec<ResourceUri>, Failure>)
    ensures
        uris_view(r) == creation_items(texts(values@)),
{
    let ghost all = texts(values@);
    let mut out: Vec<ResourceUri> = Vec::new();
    let mut i: usize = 0;
    proof {
        assert(all.take(0) =~= Seq::<Seq<char>>::empty());
        assert(seq_view(out@) =~= Seq::<UriModel>::empty());
    }
    while i < values.len()
        invariant
            i <= values@.len(),
            all == texts(values@),
            creation_items(all.take(i as int)) == Ok::<Seq<UriModel>, FailureModel>(
                seq_view(out@),
            ),
        decreases values@.len() - i,
    {
        proof {
            assert(all.take(i as int + 1).drop_last() =~= all.take(i as int));
            assert(all.take(i as int + 1).last() == values@[i as int]@);
        }
        match ResourceUri::parse(values[i].as_str()) {
            Err(error) => {
                proof {
                    lemma_creation_error(all, i as int + 1);
                }
                return Err(Failure::Uri(error));
            },
            Ok(uri) => {
                if uri.kind() != MediaKind::Track {
                    proof {
                        lemma_creation_error(all, i as int + 1);
                    }
                    let text = uri.as_uri();
                    return Err(
                        Failure::Refused(
                            concat2(
                                "playlist creation candidates must be track URIs: ",
                                text.as_str(),
                            ),
                        ),
                    );
                }
                out.push(uri);
            },
        }
        i = i + 1;
    }
    assert(all.take(all.len() as int) =~= all);
    Ok(out)
}

/// A new playlist: the mutation that creates it, what it starts with, and the
/// mutations that the provider's capabilities are checked with, in order,
/// before anything is written. What starts with items needs adding, and also
/// unfollowing, by which a creation is rolled back.
#[derive(Debug)]
pub struct CreationPlan {
    pub create: Mutation,
    pub items: Vec<PlaylistInsertion>,
    pub checks: Vec<Mutation>,
}

/// The mutation that creates a private playlist.
pub open spec fn creation(name: Seq<char>, description: Option<Seq<char>>) -> MutationModel {
    MutationModel::PlaylistCreate { name, public: Some(false), description }
}

/// The mutations that a creation is checked with.
pub open spec fn creation_checks(
    scheme: Seq<char>,
    name: Seq<char>,
    description: Option<Seq<char>>,
    items: Seq<UriModel>,
) -> Seq<MutationModel> {
    if items.len() == 0 {
        seq![creation(name, description)]
    } else {
        seq![
            creation(name, description),
            MutationModel::PlaylistAdd {
                playlist_uri: preflight_uri(scheme),
                items: insertions(items),
                expected_version: None,
            },
            MutationModel::PlaylistUnfollow { playlist_uri: preflight_uri(scheme) },
        ]
    }
}

fn make_creation(name: &str, description: Option<&str>) -> (r: Mutation)
    ensures
        r@ == creation(name@, opt_str(description)),
{
    Mutation::PlaylistCreate {
        name: name.to_owned(),
        public: Some(false),
        description: match description {
            Some(text) => Some(text.to_owned()),
            None => None,
        },
    }
}

/// Checks a new playlist before anything is written.
pub fn preflight_playlist_creation(
    scheme: &UriScheme,
    name: &str,
    description: Option<&str>,
    uris: &[String],
) -> (r: Result<CreationPlan, Failure>)
    ensures
        match r {
            Ok(plan) => {
                &&& trimmed(name@).len() > 0
                &&& creation_items(texts(uris@)) matches Ok(items) && {
                    &&& plan.create@ == creation(name@, opt_str(description))
                    &&& seq_view(plan.items@) == insertions(items)
                    &&& seq_view(plan.checks@) == creation_checks(
                        scheme@,
                        name@,
                        opt_str(description),
                        items,
                    )
                }
            },
            Err(error) => if trimmed(name@).len() == 0 {
                error@ == bad_input("name"@, "playlist name cannot be empty"@)
            } else {
                creation_items(texts(uris@)) == Err::<Seq<UriModel>, FailureModel>(error@)
            },
        },
{
    let visible = trim_text(name);
    if visible.as_str().is_empty() {
        return Err(Failure::invalid_input("name", "playlist name cannot be empty"));
    }
    let resources = match all_creation_items(uris) {
        Ok(resources) => resources,
        Err(error) => return Err(error),
    };
    let mut checks: Vec<Mutation> = Vec::new();
    checks.push(make_creation(name, description));
    if resources.len() > 0 {
        checks.push(
            Mutation::PlaylistAdd {
                playlist_uri: playlist_preflight_resource(scheme),
                items: insertions_of(resources.as_slice()),
                expected_version: None,
            },
        );
        checks.push(
            Mutation::PlaylistUnfollow { playlist_uri: playlist_preflight_resource(scheme) },
        );
    }
    proof {
        assert(seq_view(checks@) =~= creation_checks(
            scheme@,
            name@,
            opt_str(description),
            seq_view(resources@),
        ));
    }
    Ok(
        CreationPlan {
            create: make_creation(name, description),
            items: insertions_of(resources.as_slice()),
            checks,
        },
    )
}

/// Rejects a request to create a playlist of nothing.
pub fn require_creation_uris(uris: &[String]) -> (r: Result<(), Failure>)
    ensures
        match r {
            Ok(_) => uris@.len() > 0,
            Err(error) => uris@.len() == 0 && error@ == FailureModel::Refused(
                "no resolved track URIs to add"@,
            ),
        },
{
    if uris.len() == 0 {
        Err(Failure::refused("no resolved track URIs to add"))
    } else {
        Ok(())
    }
}

// ---------------------------------------------------------------------------
// Laws
// ---------------------------------------------------------------------------

proof fn lemma_resource_is_canonical(provider: Seq<char>, scheme: Seq<char>, value: Seq<char>)
    requires
        is_scheme(scheme),
        playlist_resource(provider, scheme, value) is Ok,
    ensures
        ({
            let uri = playlist_resource(provider, scheme, value)->Ok_0;
            &&& uri.valid()
            &&& uri.kind == MediaKind::Playlist
            &&& uri.scheme == scheme
            &&& playlist_resource(provider, scheme, uri.text()) == Ok::<UriModel, FailureModel>(uri)
        }),
{
    let uri = playlist_resource(provider, scheme, value)->Ok_0;
    parsed_text_is_canonical(value);
    canonical_text_parses_back(uri);
}

/// Playlists whose ids are in canonical form are left as they are.
pub proof fn normalizing_playlists_twice_changes_nothing(
    provider: Seq<char>,
    scheme: Seq<char>,
    playlists: Seq<PlaylistModel>,
)
    requires
        is_scheme(scheme),
    ensures
        normalized(provider, scheme, playlists) matches Ok(all) ==> {
            &&& all.len() == playlists.len()
            &&& normalized(provider, scheme, all) == Ok::<Seq<PlaylistModel>, FailureModel>(all)
            &&& forall|i: int|
                0 <= i < all.len() ==> playlist_resource(
                    provider,
                    scheme,
                    #[trigger] all[i].id,
                ) is Ok && all[i] == (PlaylistModel {
                    id: playlist_resource(provider, scheme, all[i].id)->Ok_0.text(),
                    ..playlists[i]
                })
        },
    decreases playlists.len(),
{
    if normalized(provider, scheme, playlists) is Ok {
        let all = normalized(provider, scheme, playlists)->Ok_0;
        if playlists.len() > 0 {
            let before = playlists.drop_last();
            normalizing_playlists_twice_changes_nothing(provider, scheme, before);
            let done = normalized(provider, scheme, before)->Ok_0;
            lemma_resource_is_canonical(provider, scheme, playlists.last().id);
            assert(all.drop_last() =~= done);
            assert(normalized(provider, scheme, all)->Ok_0 =~= all);
            assert forall|i: int| 0 <= i < all.len() implies playlist_resource(
                provider,
                scheme,
                #[trigger] all[i].id,
            ) is Ok && all[i] == (PlaylistModel {
                id: playlist_resource(provider, scheme, all[i].id)->Ok_0.text(),
                ..playlists[i]
            }) by {
                if i < done.len() {
                    assert(all[i] == done[i]);
                    assert(before[i] == playlists[i]);
                }
            }
        } else {
            assert(all =~= playlists);
        }
    }
}

/// A playlist that is found, by its identifier or otherwise, belongs to the
/// provider that was asked, and its id is the text of its identifier. Once a
/// playlist is meant, finding it does not fail any more.
pub proof fn found_playlists_belong_to_the_provider(
    provider: Seq<char>,
    scheme: Seq<char>,
    playlists: Seq<PlaylistModel>,
    value: Seq<char>,
    requested: UriModel,
    answer: Option<PlaylistModel>,
)
    requires
        is_scheme(scheme),
        requested.valid(),
    ensures
        found_by_name(provider, scheme, playlists, value) matches Ok((playlist, uri)) ==> {
            &&& uri.kind == MediaKind::Playlist
            &&& uri.scheme == scheme
            &&& playlist.id == uri.text()
        },
        normalized(provider, scheme, playlists) matches Ok(all) ==> (found_by_name(
            provider,
            scheme,
            playlists,
            value,
        ) is Ok <==> first_meant(all, value) < all.len()),
        looked_up(provider, scheme, requested, answer) matches Ok(playlist) ==> {
            &&& requested.kind == MediaKind::Playlist
            &&& requested.scheme == scheme
            &&& playlist.id == requested.text()
        },
{
    normalizing_playlists_twice_changes_nothing(provider, scheme, playlists);
    if normalized(provider, scheme, playlists) is Ok {
        let all = normalized(provider, scheme, playlists)->Ok_0;
        let i = first_meant(all, value);
        lemma_first_meant_bounds(all, value);
        if i < all.len() {
            assert(playlist_resource(provider, scheme, all[i].id) is Ok);
            lemma_resource_is_canonical(provider, scheme, all[i].id);
        }
    }
    if looked_up(provider, scheme, requested, answer) is Ok {
        lemma_resource_is_canonical(provider, scheme, answer->0.id);
        canonical_text_is_injective(
            playlist_resource(provider, scheme, answer->0.id)->Ok_0,
            requested,
        );
    }
}

proof fn lemma_first_meant_bounds(playlists: Seq<PlaylistModel>, value: Seq<char>)
    ensures
        0 <= first_meant(playlists, value) <= playlists.len(),
    decreases playlists.len(),
{
    if playlists.len() > 0 && !is_meant(playlists[0], value) {
        lemma_first_meant_bounds(playlists.skip(1), value);
    }
}

/// The first playlist that is meant is found: one whose id, identifier or bare
/// id is the text, or whose name is, in any case of letters. Where one is there,
/// something is found, at that place or before it.
pub proof fn meant_playlists_are_found(playlists: Seq<PlaylistModel>, value: Seq<char>, k: int)
    requires
        0 <= k < playlists.len(),
    ensures
        playlists[k].id == value ==> first_meant(playlists, value) <= k,
        lowered(playlists[k].name) == lowered(value) ==> first_meant(playlists, value) <= k,
        parsed_uri(playlists[k].id) is Ok && parsed_uri(playlists[k].id)->Ok_0.id == value
            ==> first_meant(playlists, value) <= k,
        first_meant(playlists, value) == k ==> playlists[k].id == value || lowered(
            playlists[k].name,
        ) == lowered(value) || (parsed_uri(playlists[k].id) is Ok && parsed_uri(
            playlists[k].id,
        )->Ok_0.id == value),
        0 <= first_meant(playlists, value) <= playlists.len(),
    decreases k,
{
    lemma_first_meant_bounds(playlists, value);
    lemma_first_meant_bounds(playlists.skip(1), value);
    parsed_text_is_canonical(value);
    parsed_text_is_canonical(playlists[k].id);
    if k > 0 && !is_meant(playlists[0], value) {
        assert(playlists.skip(1)[k - 1] == playlists[k]);
        meant_playlists_are_found(playlists.skip(1), value, k - 1);
    }
}

/// An identifier of a playlist of the provider stands for itself and a bare id
/// for the playlist of that id; an identifier of anything else is refused.
pub proof fn playlist_resources_are_the_provider_s(
    provider: Seq<char>,
    scheme: Seq<char>,
    value: Seq<char>,
)
    ensures
        ({
            let found = playlist_resource(provider, scheme, value);
            let uri = parsed_uri(value)->Ok_0;
            let own = uri.kind == MediaKind::Playlist && uri.scheme == scheme;
            &&& parsed_uri(value) is Ok && own ==> found == Ok::<UriModel, FailureModel>(uri)
            &&& parsed_uri(value) is Ok && !own ==> (found matches Err(error)
                && error matches FailureModel::Provider(inner)
                && inner matches ProviderErrorModel::InvalidInput { field, .. } && field
                == "playlist"@)
            &&& parsed_uri(value) is Err && is_bare_id(value) ==> found == Ok::<
                UriModel,
                FailureModel,
            >(UriModel { scheme, kind: MediaKind::Playlist, id: value })
            &&& parsed_uri(value) is Err && !is_bare_id(value) ==> found is Err
        }),
{
}

/// Each normalized playlist is the one that stood at its place, with its id
/// alone made canonical; a list fails exactly where one of its ids does.
pub proof fn normalized_playlists_are_the_same(
    provider: Seq<char>,
    scheme: Seq<char>,
    playlists: Seq<PlaylistModel>,
)
    ensures
        normalized(provider, scheme, playlists) is Ok <==> forall|i: int|
            0 <= i < playlists.len() ==> playlist_resource(
                provider,
                scheme,
                (#[trigger] playlists[i]).id,
            ) is Ok,
        normalized(provider, scheme, playlists) matches Ok(all) ==> all.len() == playlists.len()
            && forall|i: int|
            0 <= i < all.len() ==> (#[trigger] all[i]) == (PlaylistModel {
                id: playlist_resource(provider, scheme, playlists[i].id)->Ok_0.text(),
                ..playlists[i]
            }),
    decreases playlists.len(),
{
    if playlists.len() > 0 {
        let init = playlists.drop_last();
        normalized_playlists_are_the_same(provider, scheme, init);
        assert forall|i: int| 0 <= i < init.len() implies #[trigger] init[i] == playlists[i] by {
        }
        assert(playlists.last() == playlists[playlists.len() - 1]);
        if normalized(provider, scheme, playlists) is Ok {
            let all = normalized(provider, scheme, playlists)->Ok_0;
            let before = normalized(provider, scheme, init)->Ok_0;
            assert forall|i: int| 0 <= i < all.len() implies (#[trigger] all[i]) == (
            PlaylistModel {
                id: playlist_resource(provider, scheme, playlists[i].id)->Ok_0.text(),
                ..playlists[i]
            }) by {
                if i < before.len() {
                    assert(all[i] == before[i]);
                    assert(init[i] == playlists[i]);
                }
            }
            assert forall|i: int| 0 <= i < playlists.len() implies playlist_resource(
                provider,
                scheme,
                (#[trigger] playlists[i]).id,
            ) is Ok by {
                if i < init.len() {
                    assert(init[i] == playlists[i]);
                }
            }
        } else if normalized(provider, scheme, init) is Err {
            let i = choose|i: int|
                0 <= i < init.len() && !(playlist_resource(
                    provider,
                    scheme,
                    (#[trigger] init[i]).id,
                ) is Ok);
            assert(playlists[i] == init[i]);
        }
    }
}

/// An item for a playlist is a track or an episode of the provider; anything
/// else is refused.
pub proof fn playlist_items_are_own_tracks_or_episodes(
    provider: Seq<char>,
    scheme: Seq<char>,
    value: Seq<char>,
)
    ensures
        playlist_item(provider, scheme, value) is Ok <==> parsed_uri(value) is Ok && (parsed_uri(
            value,
        )->Ok_0.kind == MediaKind::Track || parsed_uri(value)->Ok_0.kind == MediaKind::Episode)
            && parsed_uri(value)->Ok_0.scheme == scheme,
        playlist_item(provider, scheme, value) matches Ok(uri) ==> uri.text() == value,
{
    parsed_text_is_canonical(value);
}

/// Where items are accepted, all of them are, in their order: the item at a
/// place is what the text at that place stands for. One bad text refuses them
/// all, with what is wrong with the first.
pub proof fn all_playlist_items_are_kept(
    provider: Seq<char>,
    scheme: Seq<char>,
    values: Seq<Seq<char>>,
)
    ensures
        playlist_items(provider, scheme, values) is Ok <==> forall|i: int|
            0 <= i < values.len() ==> playlist_item(
                provider,
                scheme,
                #[trigger] values[i],
            ) is Ok,
        playlist_items(provider, scheme, values) matches Ok(items) ==> items.len() == values.len()
            && forall|i: int|
            0 <= i < items.len() ==> (#[trigger] items[i]).text() == values[i] && Ok::<
                UriModel,
                FailureModel,
            >(items[i]) == playlist_item(provider, scheme, values[i]),
    decreases values.len(),
{
    if values.len() > 0 {
        let init = values.drop_last();
        all_playlist_items_are_kept(provider, scheme, init);
        playlist_items_are_own_tracks_or_episodes(provider, scheme, values.last());
        assert(values.last() == values[values.len() - 1]);
        if playlist_items(provider, scheme, values) is Ok {
            let items = playlist_items(provider, scheme, values)->Ok_0;
            let before = playlist_items(provider, scheme, init)->Ok_0;
            assert forall|i: int| 0 <= i < items.len() implies (#[trigger] items[i]).text()
                == values[i] && Ok::<UriModel, FailureModel>(items[i]) == playlist_item(
                provider,
                scheme,
                values[i],
            ) by {
                if i < before.len() {
                    assert(items[i] == before[i]);
                    assert(init[i] == values[i]);
                }
            }
            assert forall|i: int| 0 <= i < values.len() implies playlist_item(
                provider,
                scheme,
                #[trigger] values[i],
            ) is Ok by {
                if i < init.len() {
                    assert(init[i] == values[i]);
                }
            }
        } else if playlist_items(provider, scheme, init) is Err {
            let i = choose|i: int|
                0 <= i < init.len() && !(playlist_item(
                    provider,
                    scheme,
                    #[trigger] init[i],
                ) is Ok);
            assert(values[i] == init[i]);
        }
    }
}

/// A refusal of items is that of the first one that is refused.
pub proof fn the_first_bad_item_is_told(
    provider: Seq<char>,
    scheme: Seq<char>,
    values: Seq<Seq<char>>,
    i: int,
)
    requires
        0 <= i < values.len(),
        playlist_item(provider, scheme, values[i]) is Err,
        forall|k: int|
            0 <= k < i ==> playlist_item(provider, scheme, #[trigger] values[k]) is Ok,
    ensures
        playlist_items(provider, scheme, values) is Err,
        playlist_items(provider, scheme, values)->Err_0 == playlist_item(
            provider,
            scheme,
            values[i],
        )->Err_0,
{
    let head = values.take(i + 1);
    assert(head.drop_last() =~= values.take(i));
    assert forall|k: int| 0 <= k < values.take(i).len() implies playlist_item(
        provider,
        scheme,
        #[trigger] values.take(i)[k],
    ) is Ok by {
        assert(values.take(i)[k] == values[k]);
    }
    all_playlist_items_are_kept(provider, scheme, values.take(i));
    assert(head.last() == values[i]);
    lemma_items_error(provider, scheme, values, i + 1);
}

/// What is inserted or probed is what was given, one for one and in order, at
/// the end; a probe names one place, so that it never stands for all.
pub proof fn insertions_keep_their_items(uris: Seq<UriModel>)
    ensures
        insertions(uris).len() == uris.len(),
        probing_refs(uris).len() == uris.len(),
        forall|i: int|
            0 <= i < uris.len() ==> (#[trigger] insertions(uris)[i]).uri == uris[i] && insertions(
                uris,
            )[i].position is None,
        forall|i: int|
            0 <= i < uris.len() ==> (#[trigger] probing_refs(uris)[i]).uri == uris[i]
                && probing_refs(uris)[i].positions.len() == 1,
{
}

/// A playlist is created with every track that was asked for, each as often and
/// in the order that it was named; one text that is no track refuses them all.
pub proof fn creations_keep_every_track(values: Seq<Seq<char>>)
    ensures
        creation_items(values) is Ok <==> forall|i: int|
            0 <= i < values.len() ==> parsed_uri(#[trigger] values[i]) is Ok && parsed_uri(
                values[i],
            )->Ok_0.kind == MediaKind::Track,
        creation_items(values) matches Ok(items) ==> {
            &&& items.len() == values.len()
            &&& insertions(items).len() == values.len()
            &&& forall|i: int|
                0 <= i < values.len() ==> parsed_uri(#[trigger] values[i]) == Ok::<
                    UriModel,
                    UriErrorModel,
                >(insertions(items)[i].uri) && insertions(items)[i].uri.text() == values[i]
                    && insertions(items)[i].position is None
        },
    decreases values.len(),
{
    if values.len() > 0 {
        let init = values.drop_last();
        creations_keep_every_track(init);
        parsed_text_is_canonical(values.last());
        assert(values.last() == values[values.len() - 1]);
        if creation_items(values) is Ok {
            let items = creation_items(values)->Ok_0;
            let before = creation_items(init)->Ok_0;
            assert forall|i: int| 0 <= i < values.len() implies parsed_uri(#[trigger] values[i])
                == Ok::<UriModel, UriErrorModel>(insertions(items)[i].uri) && insertions(
                items,
            )[i].uri.text() == values[i] && insertions(items)[i].position is None && parsed_uri(
                values[i],
            )->Ok_0.kind == MediaKind::Track by {
                if i < init.len() {
                    assert(init[i] == values[i]);
                    assert(insertions(before)[i].uri == before[i]);
                    assert(items[i] == before[i]);
                }
            }
        } else if creation_items(init) is Err {
            let i = choose|i: int|
                0 <= i < init.len() && !(parsed_uri(#[trigger] init[i]) is Ok && parsed_uri(
                    init[i],
                )->Ok_0.kind == MediaKind::Track);
            assert(values[i] == init[i]);
        }
    }
}

/// A refused creation tells what is wrong with its first bad track.
pub proof fn the_first_bad_track_is_told(values: Seq<Seq<char>>, i: int)
    requires
        0 <= i < values.len(),
        !(parsed_uri(values[i]) is Ok && parsed_uri(values[i])->Ok_0.kind == MediaKind::Track),
        forall|k: int|
            0 <= k < i ==> parsed_uri(#[trigger] values[k]) is Ok && parsed_uri(
                values[k],
            )->Ok_0.kind == MediaKind::Track,
    ensures
        creation_items(values) is Err,
        parsed_uri(values[i]) matches Err(error) ==> creation_items(values)->Err_0
            == FailureModel::Uri(error),
        parsed_uri(values[i]) is Ok ==> creation_items(values)->Err_0 == FailureModel::Refused(
            "playlist creation candidates must be track URIs: "@ + values[i],
        ),
{
    let head = values.take(i + 1);
    assert(head.drop_last() =~= values.take(i));
    assert forall|k: int| 0 <= k < values.take(i).len() implies parsed_uri(
        #[trigger] values.take(i)[k],
    ) is Ok && parsed_uri(values.take(i)[k])->Ok_0.kind == MediaKind::Track by {
        assert(values.take(i)[k] == values[k]);
    }
    creations_keep_every_track(values.take(i));
    parsed_text_is_canonical(values[i]);
    assert(head.last() == values[i]);
    lemma_creation_error(values, i + 1);
}

/// Before anything is written, a creation is checked with itself; one that
/// starts with items is also checked with adding them all and with unfollowing,
/// by which it is rolled back. New playlists are private.
pub proof fn creations_are_checked_with_all_their_steps(
    scheme: Seq<char>,
    name: Seq<char>,
    description: Option<Seq<char>>,
    items: Seq<UriModel>,
)
    ensures
        ({
            let checks = creation_checks(scheme, name, description, items);
            &&& checks.len() == if items.len() == 0 {
                1int
            } else {
                3
            }
            &&& checks[0] == (MutationModel::PlaylistCreate {
                name,
                public: Some(false),
                description,
            })
            &&& creation(name, description) == checks[0]
            &&& items.len() > 0 ==> (checks[1] matches MutationModel::PlaylistAdd {
                playlist_uri,
                items: added,
                expected_version,
            } && added.len() == items.len() && expected_version is None && playlist_uri.scheme
                == scheme && playlist_uri.kind == MediaKind::Playlist && forall|i: int|
                0 <= i < items.len() ==> (#[trigger] added[i]).uri == items[i])
            &&& items.len() > 0 ==> (checks[2] matches MutationModel::PlaylistUnfollow {
                playlist_uri,
            } && playlist_uri.scheme == scheme && playlist_uri.kind == MediaKind::Playlist)
        }),
{
}

/// A search gives back the playlist that is the first to be meant, whole but
/// for its id in canonical form, with the identifier of that id; where none is
/// meant that is told.
pub proof fn searches_give_the_first_meant(
    provider: Seq<char>,
    scheme: Seq<char>,
    playlists: Seq<PlaylistModel>,
    value: Seq<char>,
)
    requires
        normalized(provider, scheme, playlists) is Ok,
    ensures
        ({
            let all = normalized(provider, scheme, playlists)->Ok_0;
            let i = first_meant(all, value);
            let found = found_by_name(provider, scheme, playlists, value);
            &&& found matches Ok((playlist, uri)) ==> 0 <= i < playlists.len() && playlist
                == all[i] && playlist.name == playlists[i].name && uri.text() == playlist.id
            &&& i == all.len() ==> found == Err::<(PlaylistModel, UriModel), FailureModel>(
                FailureModel::Refused("no playlist matching `"@ + value + "`"@),
            )
        }),
{
    let all = normalized(provider, scheme, playlists)->Ok_0;
    let i = first_meant(all, value);
    normalized_playlists_are_the_same(provider, scheme, playlists);
    lemma_first_meant_bounds(all, value);
    if found_by_name(provider, scheme, playlists, value) is Ok {
        let id = playlists[i].id;
        let uri = playlist_resource(provider, scheme, id)->Ok_0;
        assert(all[i].id == uri.text());
        let again = playlist_resource(provider, scheme, all[i].id)->Ok_0;
        if parsed_uri(all[i].id) is Ok {
            parsed_text_is_canonical(all[i].id);
        } else {
            lemma_text_is_no_bare_id(uri);
        }
    }
}

proof fn lemma_text_is_no_bare_id(uri: UriModel)
    ensures
        !is_bare_id(uri.text()),
{
    let text = uri.text();
    let n = uri.scheme.len() as int;
    assert(text[n] == ':');
    assert(!is_id_char(text[n]));
}

/// A provider that was asked for one playlist has to answer with that one: an
/// answer with another, or none, is told; the right one is passed on whole but
/// for its id in canonical form.
pub proof fn the_requested_playlist_is_answered(
    provider: Seq<char>,
    scheme: Seq<char>,
    requested: UriModel,
    answer: PlaylistModel,
)
    ensures
        looked_up(provider, scheme, requested, None) == Err::<PlaylistModel, FailureModel>(
            FailureModel::Provider(ProviderErrorModel::NotFound { resource: requested.text() }),
        ),
        playlist_resource(provider, scheme, answer.id) matches Ok(uri) ==> {
            let found = looked_up(provider, scheme, requested, Some(answer));
            &&& uri.text() == requested.text() ==> found == Ok::<PlaylistModel, FailureModel>(
                PlaylistModel { id: requested.text(), ..answer },
            )
            &&& uri.text() != requested.text() ==> found == Err::<PlaylistModel, FailureModel>(
                FailureModel::Provider(
                    ProviderErrorModel::InvalidInput {
                        field: "playlist"@,
                        message: "provider "@ + provider + " returned playlist `"@ + uri.text()
                            + "` for requested `"@ + requested.text() + "`"@,
                    },
                ),
            )
        },
        playlist_resource(provider, scheme, answer.id) matches Err(error) ==> looked_up(
            provider,
            scheme,
            requested,
            Some(answer),
        ) == Err::<PlaylistModel, FailureModel>(error),
{
}

/// What is wrong with an item or a playlist is told: the text that is no
/// identifier, the kind that does not belong into a playlist, and the provider
/// that it belongs to otherwise. The kind comes before the provider.
pub proof fn foreign_items_are_told_apart(
    provider: Seq<char>,
    scheme: Seq<char>,
    value: Seq<char>,
)
    ensures
        match parsed_uri(value) {
            Err(error) => playlist_item(provider, scheme, value) == Err::<UriModel, FailureModel>(
                FailureModel::Uri(error),
            ),
            Ok(uri) => {
                let member = uri.kind == MediaKind::Track || uri.kind == MediaKind::Episode;
                &&& !member ==> playlist_item(provider, scheme, value) == Err::<
                    UriModel,
                    FailureModel,
                >(
                    FailureModel::Provider(
                        ProviderErrorModel::InvalidInput {
                            field: "uris"@,
                            message: "playlist items must be track or episode URIs, got "@
                                + uri.kind.name(),
                        },
                    ),
                )
                &&& member && uri.scheme != scheme ==> playlist_item(provider, scheme, value)
                    == Err::<UriModel, FailureModel>(
                    FailureModel::Provider(
                        ProviderErrorModel::InvalidInput {
                            field: "uri"@,
                            message: "resource "@ + value + " belongs to `"@ + uri.scheme
                                + "`, not provider "@ + provider + " (`"@ + scheme + "`)"@,
                        },
                    ),
                )
                &&& !(uri.kind == MediaKind::Playlist && uri.scheme == scheme)
                    ==> playlist_resource(provider, scheme, value) == Err::<UriModel, FailureModel>(
                    FailureModel::Provider(
                        ProviderErrorModel::InvalidInput {
                            field: "playlist"@,
                            message: "playlist `"@ + value + "` does not belong to provider "@
                                + provider,
                        },
                    ),
                )
            },
        },
        parsed_uri(value) is Err && value.len() == 0 ==> playlist_resource(provider, scheme, value)
            == Err::<UriModel, FailureModel>(FailureModel::Uri(UriErrorModel::EmptyId)),
        parsed_uri(value) is Err && value.len() > 0 && !is_bare_id(value) ==> playlist_resource(
            provider,
            scheme,
            value,
        ) == Err::<UriModel, FailureModel>(FailureModel::Uri(UriErrorModel::InvalidId(value))),
{
    parsed_text_is_canonical(value);
}

/// A list of playlists that cannot be put into canonical form is refused for
/// the first id that cannot.
pub proof fn the_first_bad_playlist_is_told(
    provider: Seq<char>,
    scheme: Seq<char>,
    playlists: Seq<PlaylistModel>,
    n: int,
)
    requires
        0 <= n < playlists.len(),
        playlist_resource(provider, scheme, playlists[n].id) is Err,
        forall|i: int|
            0 <= i < n ==> playlist_resource(provider, scheme, (#[trigger] playlists[i]).id) is Ok,
    ensures
        normalized(provider, scheme, playlists) == Err::<Seq<PlaylistModel>, FailureModel>(
            playlist_resource(provider, scheme, playlists[n].id)->Err_0,
        ),
{
    let part = playlists.take(n + 1);
    let init = playlists.take(n);
    assert(part.drop_last() =~= init);
    assert forall|i: int| 0 <= i < init.len() implies playlist_resource(
        provider,
        scheme,
        (#[trigger] init[i]).id,
    ) is Ok by {
        assert(init[i] == playlists[i]);
    }
    normalized_playlists_are_the_same(provider, scheme, init);
    assert(part.last() == playlists[n]);
    lemma_normalized_error(provider, scheme, playlists, n + 1);
}

/// What a call that prepares a creation answers with: a plan with every track
/// that was asked for, each once for each time that it was named and in that
/// order, exactly where the name is not blank and every text is the identifier
/// of a track.
pub proof fn planned_creations_hold_every_track(
    scheme: &UriScheme,
    name: &str,
    description: Option<&str>,
    uris: &[String],
    answer: Result<CreationPlan, Failure>,
)
    requires
        call_ensures(preflight_playlist_creation, (scheme, name, description, uris), answer),
    ensures
        answer is Ok <==> trimmed(name@).len() > 0 && forall|i: int|
            0 <= i < uris@.len() ==> parsed_uri((#[trigger] uris@[i])@) is Ok && parsed_uri(
                uris@[i]@,
            )->Ok_0.kind == MediaKind::Track,
        answer matches Ok(plan) ==> {
            &&& plan.items@.len() == uris@.len()
            &&& forall|i: int|
                0 <= i < uris@.len() ==> (#[trigger] plan.items@[i])@.uri.text() == uris@[i]@
                    && plan.items@[i]@.position is None
            &&& plan.create@ == (MutationModel::PlaylistCreate {
                name: name@,
                public: Some(false),
                description: opt_str(description),
            })
        },
{
    let values = texts(uris@);
    creations_keep_every_track(values);
    assert forall|i: int| 0 <= i < uris@.len() implies #[trigger] values[i] == uris@[i]@ by {}
    if forall|i: int|
        0 <= i < uris@.len() ==> parsed_uri((#[trigger] uris@[i])@) is Ok && parsed_uri(
            uris@[i]@,
        )->Ok_0.kind == MediaKind::Track {
        assert forall|i: int| 0 <= i < values.len() implies parsed_uri(#[trigger] values[i]) is Ok
            && parsed_uri(values[i])->Ok_0.kind == MediaKind::Track by {
            assert(values[i] == uris@[i]@);
        }
    }
    if answer is Ok {
        let plan = answer->Ok_0;
        assert forall|i: int| 0 <= i < uris@.len() implies parsed_uri((#[trigger] uris@[i])@) is Ok
            && parsed_uri(uris@[i]@)->Ok_0.kind == MediaKind::Track by {
            assert(parsed_uri(values[i]) is Ok);
        }
        let items = creation_items(values)->Ok_0;
        assert(seq_view(plan.items@).len() == insertions(items).len());
        assert forall|i: int| 0 <= i < uris@.len() implies (
        #[trigger] plan.items@[i])@.uri.text() == uris@[i]@ && plan.items@[i]@.position is None by {
            assert(seq_view(plan.items@)[i] == insertions(items)[i]);
            assert(parsed_uri(values[i]) is Ok);
        }
    }
}

/// Playlists and their items are found as is told of them.
pub proof fn playlist_calls_answer_as_told()
    ensures
        forall|playlists: &[Playlist], value: &str, answer: Result<Playlist, Failure>|
            #[trigger] call_ensures(resolve_playlist, (playlists, value), answer) ==> {
                &&& ({
                    let all = seq_view(playlists@);
                    let i = first_meant(all, value@);
                    match answer {
                        Ok(playlist) => i < all.len() && playlist@ == all[i],
                        Err(error) => i >= all.len() && error@ == FailureModel::Refused(
                            "no playlist matching `"@ + value@ + "`"@,
                        ),
                    }
                })
            },
        forall|
            provider: &ProviderId,
            scheme: &UriScheme,
            value: &str,
            answer: Result<ResourceUri, Failure>,
        |
            #[trigger] call_ensures(
                playlist_resource_for_provider,
                (provider, scheme, value),
                answer,
            ) ==> {
                &&& res_view(answer) == playlist_resource(provider@, scheme@, value@)
            },
        forall|
            provider: &ProviderId,
            scheme: &UriScheme,
            playlists: &[Playlist],
            answer: Result<Vec<Playlist>, Failure>,
        |
            #[trigger] call_ensures(
                normalize_provider_playlist_list,
                (provider, scheme, playlists),
                answer,
            ) ==> {
                &&& playlists_view(answer) == normalized(provider@, scheme@, seq_view(playlists@))
            },
        forall|
            provider: &ProviderId,
            scheme: &UriScheme,
            requested: &ResourceUri,
            answer: Option<Playlist>,
            result: Result<Playlist, Failure>,
        |
            #[trigger] call_ensures(
                looked_up_playlist,
                (provider, scheme, requested, answer),
                result,
            ) ==> {
                &&& res_view(result) == looked_up(provider@, scheme@, requested@, opt_view(answer))
            },
        forall|
            provider: &ProviderId,
            scheme: &UriScheme,
            playlists: &[Playlist],
            value: &str,
            answer: Result<(Playlist, ResourceUri), Failure>,
        |
            #[trigger] call_ensures(
                named_playlist,
                (provider, scheme, playlists, value),
                answer,
            ) ==> {
                &&& found_view(answer) == found_by_name(provider@, scheme@, seq_view(playlists@), value@)
            },
        forall|
            provider: &ProviderId,
            scheme: &UriScheme,
            value: &str,
            answer: Result<ResourceUri, Failure>,
        |
            #[trigger] call_ensures(
                preflight_playlist_item_uri,
                (provider, scheme, value),
                answer,
            ) ==> {
                &&& res_view(answer) == playlist_item(provider@, scheme@, value@)
            },
{
}

/// What a call that checks an addition or a removal answers with: every item
/// that was named, in order, exactly where there are some and each is a track
/// or an episode of the provider.
pub proof fn checked_items_are_those_that_were_named(
    provider: &ProviderId,
    scheme: &UriScheme,
    uris: &[String],
    addition: Result<AddPreflight, Failure>,
    taking: Result<RemovePreflight, Failure>,
)
    requires
        call_ensures(preflight_playlist_add_items, (provider, scheme, uris), addition),
        call_ensures(preflight_playlist_remove_items, (provider, scheme, uris), taking),
    ensures
        addition is Ok <==> taking is Ok,
        addition is Ok <==> uris@.len() > 0 && forall|i: int|
            0 <= i < uris@.len() ==> playlist_item(
                provider@,
                scheme@,
                (#[trigger] uris@[i])@,
            ) is Ok,
        addition matches Ok(found) ==> found.items@.len() == uris@.len() && forall|i: int|
            0 <= i < uris@.len() ==> (#[trigger] found.items@[i])@.uri.text() == uris@[i]@,
        taking matches Ok(found) ==> found.items@.len() == uris@.len() && forall|i: int|
            0 <= i < uris@.len() ==> (#[trigger] found.items@[i])@.text() == uris@[i]@,
{
    let values = texts(uris@);
    all_playlist_items_are_kept(provider@, scheme@, values);
    assert((forall|i: int|
        0 <= i < uris@.len() ==> playlist_item(provider@, scheme@, (#[trigger] uris@[i])@) is Ok)
        <==> playlist_items(provider@, scheme@, values) is Ok) by {
        if playlist_items(provider@, scheme@, values) is Ok {
            assert forall|i: int| 0 <= i < uris@.len() implies playlist_item(
                provider@,
                scheme@,
                (#[trigger] uris@[i])@,
            ) is Ok by {
                assert(values[i] == uris@[i]@);
            }
        }
        if forall|i: int|
            0 <= i < uris@.len() ==> playlist_item(
                provider@,
                scheme@,
                (#[trigger] uris@[i])@,
            ) is Ok {
            assert forall|i: int| 0 <= i < values.len() implies playlist_item(
                provider@,
                scheme@,
                #[trigger] values[i],
            ) is Ok by {
                assert(values[i] == uris@[i]@);
            }
        }
    }
    if addition is Ok {
        let items = playlist_items(provider@, scheme@, values)->Ok_0;
        let found = addition->Ok_0;
        assert(found.items@.len() == seq_view(found.items@).len());
        assert forall|i: int| 0 <= i < uris@.len() implies (
        #[trigger] found.items@[i])@.uri.text() == uris@[i]@ by {
            assert(seq_view(found.items@)[i] == insertions(items)[i]);
            assert(items[i].text() == values[i]);
        }
    }
    if taking is Ok {
        let items = playlist_items(provider@, scheme@, values)->Ok_0;
        let found = taking->Ok_0;
        assert(found.items@.len() == seq_view(found.items@).len());
        assert forall|i: int| 0 <= i < uris@.len() implies (
        #[trigger] found.items@[i])@.text() == uris@[i]@ by {
            assert(seq_view(found.items@)[i] == items[i]);
            assert(items[i].text() == values[i]);
        }
    }
}

/// A client that waits for the tracks of a playlist gets them from the
/// provider; one that does not is answered at once, with what is cached where
/// anything is. Only the cache needs no sign-in.
pub proof fn waiting_clients_are_fetched_for(
    wait: bool,
    cache_is_empty: bool,
    tracks: ListPlan,
    lists: ListPlan,
    gated: bool,
)
    requires
        call_ensures(plan_playlist_tracks, (wait, cache_is_empty), tracks),
        call_ensures(plan_playlists_list, (cache_is_empty,), lists),
        call_ensures(tracks_need_sign_in, (tracks,), gated),
    ensures
        tracks is Fetch <==> wait,
        tracks is Pending <==> !wait && cache_is_empty,
        tracks is Cached <==> !wait && !cache_is_empty,
        gated <==> wait || cache_is_empty,
        lists is Fetch <==> cache_is_empty,
        !cache_is_empty ==> lists == (ListPlan::Cached { refresh: true }),
        tracks is Cached ==> tracks == (ListPlan::Cached { refresh: false }),
{
}

} // verus!
