//! Plans for changing playlists: which occurrences are removed, what a new
//! cover is made of, and what is left when a creation fails half way.

use vstd::prelude::*;
use vstd::string::*;
use vstd::utf8::*;

use crate::exchange::{
    AccessOutcome, AccessUnavailable, ItemRefModel, Mutation, MutationModel, PlaylistItemRef,
};
use crate::failure::{Failure, FailureModel, bad_input};
use crate::media::{MediaItem, MediaItemModel, Playlist, PlaylistModel, item_uris};
use crate::playlists::MAX_IMAGE_BASE64_BYTES;
use crate::provider::{ProviderError, ProviderErrorModel, ProviderId};
use crate::text::{
    concat2, concat3, concat4, concat5, copy_opt, decimal, lemma_seq_view_push, lemma_texts_push,
    opt_text, same_text, seq_view, texts, u64_text,
};
use crate::uri::{ResourceUri, UriModel};

verus! {

broadcast use {lemma_seq_view_push, lemma_texts_push};

// ---------------------------------------------------------------------------
// Removing exact occurrences
// ---------------------------------------------------------------------------

/// The places of a URI in a list of items, in order.
pub open spec fn places(items: Seq<MediaItemModel>, uri: Seq<char>) -> Seq<int>
    decreases items.len(),
{
    if items.len() == 0 {
        Seq::empty()
    } else {
        let before = places(items.drop_last(), uri);
        if items.last().uri == uri {
            before.push(items.len() - 1)
        } else {
            before
        }
    }
}

/// How often a resource stands in a list.
pub open spec fn times(uris: Seq<UriModel>, uri: UriModel) -> nat
    decreases uris.len(),
{
    if uris.len() == 0 {
        0
    } else {
        times(uris.drop_last(), uri) + if uris.last().text() == uri.text() {
            1nat
        } else {
            0
        }
    }
}

/// The occurrences that a request names, as URIs and places: the first time a
/// URI is named it means its first occurrence, the second time the second,
/// and so on. Or what is wrong with the first one that is not there.
pub open spec fn selected(
    requested: Seq<UriModel>,
    current: Seq<MediaItemModel>,
) -> Result<Seq<(UriModel, int)>, FailureModel>
    decreases requested.len(),
{
    if requested.len() == 0 {
        Ok(Seq::empty())
    } else {
        let before = requested.drop_last();
        let uri = requested.last();
        match selected(before, current) {
            Err(error) => Err(error),
            Ok(done) => {
                let at = places(current, uri.text());
                let n = times(before, uri);
                if n < at.len() {
                    Ok(done.push((uri, at[n as int])))
                } else {
                    Err(
                        bad_input(
                            "uris"@,
                            "playlist does not contain requested occurrence "@ + decimal(
                                requested.len(),
                            ) + " of `"@ + uri.text() + "`"@,
                        ),
                    )
                }
            },
        }
    }
}

/// The selection, or why there is none: a playlist that is too long for its
/// places to be written down, or an occurrence that is not there.
pub open spec fn removal(
    requested: Seq<UriModel>,
    current: Seq<MediaItemModel>,
) -> Result<Seq<(UriModel, int)>, FailureModel> {
    if current.len() > u32::MAX + 1 {
        Err(bad_input("playlist"@, "playlist position exceeds the supported range"@))
    } else {
        selected(requested, current)
    }
}

/// A selection as references for the provider.
pub open spec fn refs_of(selection: Seq<(UriModel, int)>) -> Seq<ItemRefModel> {
    Seq::new(
        selection.len(),
        |i: int| ItemRefModel { uri: selection[i].0, positions: seq![selection[i].1 as u32] },
    )
}

/// An item that was removed, and where it stood.
#[derive(Debug, PartialEq, Eq)]
pub struct RemovedItem {
    pub uri: String,
    pub position: u32,
}

/// A removed item as plain values.
pub struct RemovedModel {
    pub uri: Seq<char>,
    pub position: u32,
}

impl View for RemovedItem {
    type V = RemovedModel;

    open spec fn view(&self) -> RemovedModel {
        RemovedModel { uri: self.uri@, position: self.position }
    }
}

impl Clone for RemovedItem {
    fn clone(&self) -> (r: Self)
        ensures
            r@ == self@,
    {
        RemovedItem { uri: self.uri.clone(), position: self.position }
    }
}

/// A selection as a record of what was where.
pub open spec fn removed_of(selection: Seq<(UriModel, int)>) -> Seq<RemovedModel> {
    Seq::new(
        selection.len(),
        |i: int| RemovedModel { uri: selection[i].0.text(), position: selection[i].1 as u32 },
    )
}

fn times_before(uris: &[ResourceUri], upto: usize, uri: &ResourceUri) -> (r: usize)
    requires
        upto <= uris@.len(),
    ensures
        r == times(seq_view(uris@).take(upto as int), uri@),
{
    let ghost all = seq_view(uris@);
    let wanted = uri.as_uri();
    let mut n: usize = 0;
    let mut i: usize = 0;
    assert(all.take(0) =~= Seq::<UriModel>::empty());
    while i < upto
        invariant
            i <= upto <= uris@.len(),
            all == seq_view(uris@),
            wanted@ == uri@.text(),
            n <= i,
            n == times(all.take(i as int), uri@),
        decreases upto - i,
    {
        proof {
            assert(all.take(i as int + 1).drop_last() =~= all.take(i as int));
            assert(all.take(i as int + 1).last() == uris@[i as int]@);
        }
        let text = uris[i].as_uri();
        if same_text(text.as_str(), wanted.as_str()) {
            n = n + 1;
        }
        i = i + 1;
    }
    n
}

/// The place of an occurrence of a URI, counted from zero.
fn find_occurrence(items: &[MediaItem], uri: &str, nth: usize) -> (r: Option<usize>)
    ensures
        ({
            let at = places(seq_view(items@), uri@);
            match r {
                Some(place) => nth < at.len() && at[nth as int] == place && place < items@.len(),
                None => nth >= at.len(),
            }
        }),
{
    let ghost all = seq_view(items@);
    let mut seen: usize = 0;
    let mut i: usize = 0;
    assert(all.take(0) =~= Seq::<MediaItemModel>::empty());
    while i < items.len()
        invariant
            i <= items@.len(),
            all == seq_view(items@),
            seen <= i,
            seen <= nth,
            seen == places(all.take(i as int), uri@).len(),
        decreases items@.len() - i,
    {
        proof {
            assert(all.take(i as int + 1).drop_last() =~= all.take(i as int));
            assert(all.take(i as int + 1).last() == items@[i as int]@);
        }
        if same_text(items[i].uri.as_str(), uri) {
            if seen == nth {
                proof {
                    let part = places(all.take(i as int + 1), uri@);
                    lemma_places_prefix(all, uri@, i as int + 1);
                    assert(part[nth as int] == i);
                    assert(places(all, uri@).take(part.len() as int)[nth as int] == i);
                }
                return Some(i);
            }
            seen = seen + 1;
        }
        i = i + 1;
    }
    assert(all.take(all.len() as int) =~= all);
    None
}

proof fn lemma_places_prefix(items: Seq<MediaItemModel>, uri: Seq<char>, n: int)
    requires
        0 <= n <= items.len(),
    ensures
        places(items.take(n), uri).len() <= places(items, uri).len(),
        places(items.take(n), uri) == places(items, uri).take(
            places(items.take(n), uri).len() as int,
        ),
    decreases items.len() - n,
{
    let part = places(items.take(n), uri);
    let all = places(items, uri);
    if n < items.len() {
        lemma_places_prefix(items, uri, n + 1);
        let more = places(items.take(n + 1), uri);
        assert(items.take(n + 1).drop_last() =~= items.take(n));
        assert(more.take(part.len() as int) =~= part);
        assert(all.take(part.len() as int) =~= more.take(part.len() as int));
    } else {
        assert(items.take(n) =~= items);
        assert(all.take(all.len() as int) =~= all);
    }
}

proof fn lemma_selected_error(requested: Seq<UriModel>, current: Seq<MediaItemModel>, n: int)
    requires
        0 <= n <= requested.len(),
        selected(requested.take(n), current) is Err,
    ensures
        selected(requested, current) == selected(requested.take(n), current),
    decreases requested.len() - n,
{
    if n < requested.len() {
        assert(requested.take(n + 1).drop_last() =~= requested.take(n));
        lemma_selected_error(requested, current, n + 1);
    } else {
        assert(requested.take(n) =~= requested);
    }
}

/// Finds the occurrences that a request names in what a playlist holds now:
/// as references for the provider, and as a record of what was where.
pub fn select_playlist_remove_items(requested: &[ResourceUri], current: &[MediaItem]) -> (r: Result<
    (Vec<PlaylistItemRef>, Vec<RemovedItem>),
    Failure,
>)
    ensures
        match r {
            Ok((refs, removed)) => removal(seq_view(requested@), seq_view(current@)) matches Ok(
                selection,
            ) && seq_view(refs@) == refs_of(selection) && seq_view(removed@) == removed_of(
                selection,
            ),
            Err(error) => removal(seq_view(requested@), seq_view(current@)) == Err::<
                Seq<(UriModel, int)>,
                FailureModel,
            >(error@),
        },
{
    let ghost wanted = seq_view(requested@);
    let ghost all = seq_view(current@);
    if current.len() as u64 > u32::MAX as u64 + 1 {
        return Err(
            Failure::invalid_input("playlist", "playlist position exceeds the supported range"),
        );
    }
    let mut refs: Vec<PlaylistItemRef> = Vec::new();
    let mut removed: Vec<RemovedItem> = Vec::new();
    let ghost mut selection: Seq<(UriModel, int)> = Seq::empty();
    let mut i: usize = 0;
    proof {
        assert(wanted.take(0) =~= Seq::<UriModel>::empty());
        assert(seq_view(refs@) =~= refs_of(selection));
        assert(seq_view(removed@) =~= removed_of(selection));
    }
    while i < requested.len()
        invariant
            i <= requested@.len(),
            wanted == seq_view(requested@),
            all == seq_view(current@),
            current@.len() <= u32::MAX + 1,
            selected(wanted.take(i as int), all) == Ok::<Seq<(UriModel, int)>, FailureModel>(
                selection,
            ),
            seq_view(refs@) == refs_of(selection),
            seq_view(removed@) == removed_of(selection),
        decreases requested@.len() - i,
    {
        proof {
            assert(wanted.take(i as int + 1).drop_last() =~= wanted.take(i as int));
            assert(wanted.take(i as int + 1).last() == requested@[i as int]@);
        }
        let canonical = requested[i].as_uri();
        let nth: usize = times_before(requested, i, &requested[i]);
        match find_occurrence(current, canonical.as_str(), nth) {
            None => {
                proof {
                    lemma_selected_error(wanted, all, i as int + 1);
                }
                let number = u64_text(i as u64 + 1);
                let message = concat5(
                    "playlist does not contain requested occurrence ",
                    number.as_str(),
                    " of `",
                    canonical.as_str(),
                    "`",
                );
                return Err(Failure::invalid_input("uris", message.as_str()));
            },
            Some(place) => {
                let position: u32 = place as u32;
                let mut positions: Vec<u32> = Vec::new();
                positions.push(position);
                assert(positions@ =~= seq![position]);
                let ghost before = selection;
                proof {
                    selection = selection.push((requested@[i as int]@, place as int));
                }
                refs.push(PlaylistItemRef { uri: requested[i].clone(), positions });
                removed.push(RemovedItem { uri: canonical, position });
                proof {
                    assert(seq_view(refs@) =~= refs_of(selection));
                    assert(seq_view(removed@) =~= removed_of(selection));
                }
            },
        }
        i = i + 1;
    }
    assert(wanted.take(wanted.len() as int) =~= wanted);
    Ok((refs, removed))
}

// ---------------------------------------------------------------------------
// The plan of a removal
// ---------------------------------------------------------------------------

/// Whether removed items stand in the order of their positions.
pub open spec fn by_position(items: Seq<RemovedModel>) -> bool {
    forall|i: int, j: int| 0 <= i < j < items.len() ==> items[i].position <= items[j].position
}

/// Puts removed items into the order of their positions.
fn sort_by_position(items: Vec<RemovedItem>) -> (r: Vec<RemovedItem>)
    ensures
        by_position(seq_view(r@)),
        seq_view(r@).to_multiset() == seq_view(items@).to_multiset(),
{
    broadcast use vstd::seq_lib::group_to_multiset_ensures;

    let mut out: Vec<RemovedItem> = Vec::new();
    let mut i: usize = 0;
    let ghost all = seq_view(items@);
    proof {
        assert(seq_view(out@) =~= Seq::<RemovedModel>::empty());
        assert(all.take(0) =~= Seq::<RemovedModel>::empty());
    }
    while i < items.len()
        invariant
            i <= items@.len(),
            all == seq_view(items@),
            by_position(seq_view(out@)),
            seq_view(out@).to_multiset() == all.take(i as int).to_multiset(),
            out@.len() == i,
        decreases items@.len() - i,
    {
        let item = items[i].clone();
        let mut at: usize = out.len();
        while at > 0 && out[at - 1].position > item.position
            invariant
                at <= out@.len(),
                forall|k: int|
                    at <= k < out@.len() ==> (#[trigger] seq_view(out@)[k]).position
                        > item.position,
            decreases at,
        {
            assert(seq_view(out@)[at as int - 1] == out@[at as int - 1]@);
            at = at - 1;
        }
        let ghost before = seq_view(out@);
        let ghost model = item@;
        proof {
            if at > 0 {
                assert(before[at as int - 1] == out@[at as int - 1]@);
            }
        }
        out.insert(at, item);
        proof {
            assert(seq_view(out@) =~= before.insert(at as int, model));
            assert forall|p: int, q: int| 0 <= p < q < seq_view(out@).len() implies seq_view(
                out@,
            )[p].position <= seq_view(out@)[q].position by {
                let s = seq_view(out@);
                if p < at && q < at {
                    assert(s[p] == before[p] && s[q] == before[q]);
                } else if p < at && q == at {
                    assert(s[p] == before[p]);
                    assert(before[p].position <= before[at as int - 1].position);
                } else if p < at {
                    assert(s[p] == before[p] && s[q] == before[q - 1]);
                } else if p == at {
                    assert(s[q] == before[q - 1]);
                } else {
                    assert(s[p] == before[p - 1] && s[q] == before[q - 1]);
                }
            }
            assert(all.take(i as int + 1) =~= all.take(i as int).insert(i as int, model));
            lemma_insert_multiset(before, at as int, model);
            lemma_insert_multiset(all.take(i as int), i as int, model);
        }
        i = i + 1;
    }
    assert(all.take(all.len() as int) =~= all);
    out
}

proof fn lemma_insert_multiset(s: Seq<RemovedModel>, at: int, x: RemovedModel)
    requires
        0 <= at <= s.len(),
    ensures
        s.insert(at, x).to_multiset() == s.to_multiset().insert(x),
{
    broadcast use vstd::seq_lib::group_to_multiset_ensures;

    assert(s.insert(at, x) =~= s.take(at).push(x) + s.skip(at));
    assert(s =~= s.take(at) + s.skip(at));
    vstd::seq_lib::lemma_multiset_commutative(s.take(at).push(x), s.skip(at));
    vstd::seq_lib::lemma_multiset_commutative(s.take(at), s.skip(at));
    assert(s.insert(at, x).to_multiset() =~= s.to_multiset().insert(x));
}

/// A removal that is ready to be carried out.
#[derive(Debug)]
pub struct PlaylistRemovePlan {
    pub provider: ProviderId,
    pub resolved: Playlist,
    pub playlist_uri: ResourceUri,
    pub mutation_items: Vec<PlaylistItemRef>,
    pub removed_items: Vec<RemovedItem>,
}

fn copy_refs(items: &[PlaylistItemRef]) -> (r: Vec<PlaylistItemRef>)
    ensures
        seq_view(r@) == seq_view(items@),
{
    let mut out: Vec<PlaylistItemRef> = Vec::new();
    let mut i: usize = 0;
    while i < items.len()
        invariant
            i <= items@.len(),
            seq_view(out@) =~= seq_view(items@).take(i as int),
        decreases items@.len() - i,
    {
        out.push(items[i].clone());
        i = i + 1;
    }
    assert(seq_view(out@) =~= seq_view(items@));
    out
}

impl PlaylistRemovePlan {
    /// The mutation that carries the plan out, against the version that it was
    /// made from.
    pub fn mutation(&self) -> (r: Mutation)
        ensures
            r@ == (MutationModel::PlaylistRemove {
                playlist_uri: self.playlist_uri@,
                items: seq_view(self.mutation_items@),
                expected_version: self.resolved@.version_token,
            }),
    {
        Mutation::PlaylistRemove {
            playlist_uri: self.playlist_uri.clone(),
            items: copy_refs(self.mutation_items.as_slice()),
            expected_version: copy_opt(&self.resolved.version_token),
        }
    }
}

/// What keeps a removal from being planned, if anything does.
pub open spec fn removal_fault(
    preflight_provider: Seq<char>,
    provider: Seq<char>,
    version_tokens: bool,
    resolved: PlaylistModel,
    playlist_uri: UriModel,
    requested: Seq<UriModel>,
    current: Seq<MediaItemModel>,
) -> Option<FailureModel> {
    if provider != preflight_provider {
        Some(
            bad_input("provider"@, "playlist provider changed during removal preflight"@),
        )
    } else if version_tokens && resolved.version_token is None {
        Some(
            FailureModel::Provider(
                ProviderErrorModel::Provider(
                    "provider "@ + provider
                        + " advertises playlist version tokens but omitted one for "@
                        + playlist_uri.text(),
                ),
            ),
        )
    } else {
        match removal(requested, current) {
            Ok(_) => None,
            Err(error) => Some(error),
        }
    }
}

/// Plans the removal of exact occurrences from what a playlist holds now.
pub fn build_playlist_remove_plan(
    preflight_provider: &ProviderId,
    provider: ProviderId,
    version_tokens: bool,
    resolved: Playlist,
    playlist_uri: ResourceUri,
    requested: &[ResourceUri],
    current: &[MediaItem],
) -> (r: Result<PlaylistRemovePlan, Failure>)
    ensures
        ({
            let fault = removal_fault(
                preflight_provider@,
                provider@,
                version_tokens,
                resolved@,
                playlist_uri@,
                seq_view(requested@),
                seq_view(current@),
            );
            match r {
                Err(error) => fault == Some(error@),
                Ok(plan) => {
                    let selection = removal(seq_view(requested@), seq_view(current@))->Ok_0;
                    &&& fault is None
                    &&& plan.provider@ == provider@
                    &&& plan.resolved@ == resolved@
                    &&& plan.playlist_uri@ == playlist_uri@
                    &&& seq_view(plan.mutation_items@) == refs_of(selection)
                    &&& by_position(seq_view(plan.removed_items@))
                    &&& seq_view(plan.removed_items@).to_multiset() == removed_of(
                        selection,
                    ).to_multiset()
                },
            }
        }),
{
    if !provider.same(preflight_provider) {
        return Err(
            Failure::invalid_input(
                "provider",
                "playlist provider changed during removal preflight",
            ),
        );
    }
    if version_tokens && resolved.version_token.is_none() {
        let text = playlist_uri.as_uri();
        let message = concat4(
            "provider ",
            provider.as_str(),
            " advertises playlist version tokens but omitted one for ",
            text.as_str(),
        );
        return Err(Failure::Provider(ProviderError::Provider(message)));
    }
    match select_playlist_remove_items(requested, current) {
        Err(error) => Err(error),
        Ok((mutation_items, removed)) => Ok(
            PlaylistRemovePlan {
                provider,
                resolved,
                playlist_uri,
                mutation_items,
                removed_items: sort_by_position(removed),
            },
        ),
    }
}

// ---------------------------------------------------------------------------
// Laws of selections
// ---------------------------------------------------------------------------

proof fn lemma_places(items: Seq<MediaItemModel>, uri: Seq<char>)
    ensures
        forall|k: int|
            0 <= k < places(items, uri).len() ==> 0 <= #[trigger] places(items, uri)[k]
                < items.len() && items[places(items, uri)[k]].uri == uri,
        forall|j: int, k: int|
            0 <= j < k < places(items, uri).len() ==> places(items, uri)[j] < places(
                items,
                uri,
            )[k],
    decreases items.len(),
{
    if items.len() > 0 {
        let init = items.drop_last();
        lemma_places(init, uri);
        let before = places(init, uri);
        let all = places(items, uri);
        assert forall|k: int| 0 <= k < all.len() implies 0 <= #[trigger] all[k] < items.len()
            && items[all[k]].uri == uri by {
            if k < before.len() {
                assert(all[k] == before[k]);
                assert(init[before[k]] == items[before[k]]);
            }
        }
        assert forall|j: int, k: int| 0 <= j < k < all.len() implies all[j] < all[k] by {
            assert(all[j] == before[j]);
            if k < before.len() {
                assert(all[k] == before[k]);
            }
        }
    }
}

proof fn lemma_selected_entries(requested: Seq<UriModel>, current: Seq<MediaItemModel>, i: int)
    requires
        selected(requested, current) is Ok,
        0 <= i < requested.len(),
    ensures
        ({
            let selection = selected(requested, current)->Ok_0;
            let uri = requested[i];
            let n = times(requested.take(i), uri);
            &&& selection.len() == requested.len()
            &&& n < places(current, uri.text()).len()
            &&& selection[i] == (uri, places(current, uri.text())[n as int])
        }),
    decreases requested.len(),
{
    let before = requested.drop_last();
    let done = selected(before, current)->Ok_0;
    if before.len() > 0 {
        lemma_selected_entries(before, current, 0);
    } else {
        assert(done.len() == 0);
    }
    if i < before.len() {
        lemma_selected_entries(before, current, i);
        assert(before[i] == requested[i]);
        assert(before.take(i) =~= requested.take(i));
    } else {
        assert(requested.take(i) =~= before);
    }
}

proof fn lemma_times_grow(uris: Seq<UriModel>, i: int, j: int)
    requires
        0 <= i < j <= uris.len(),
        i < uris.len(),
    ensures
        times(uris.take(i), uris[i]) < times(uris.take(j), uris[i]),
    decreases j - i,
{
    assert(uris.take(j).drop_last() =~= uris.take(j - 1));
    if j == i + 1 {
        assert(uris.take(j).last() == uris[i]);
    } else {
        lemma_times_grow(uris, i, j - 1);
    }
}

/// A selection names one place for every resource that was asked for, in that
/// order: each place holds its resource, and no place is named twice.
pub proof fn selections_are_exact(requested: Seq<UriModel>, current: Seq<MediaItemModel>)
    requires
        selected(requested, current) is Ok,
    ensures
        ({
            let selection = selected(requested, current)->Ok_0;
            &&& selection.len() == requested.len()
            &&& forall|i: int|
                0 <= i < selection.len() ==> (#[trigger] selection[i]).0 == requested[i] && 0
                    <= selection[i].1 < current.len() && current[selection[i].1].uri
                    == requested[i].text()
            &&& forall|i: int, j: int|
                0 <= i < j < selection.len() ==> selection[i].1 != selection[j].1
        }),
{
    let selection = selected(requested, current)->Ok_0;
    if requested.len() > 0 {
        lemma_selected_entries(requested, current, 0);
    }
    assert forall|i: int| 0 <= i < selection.len() implies (#[trigger] selection[i]).0
        == requested[i] && 0 <= selection[i].1 < current.len() && current[selection[i].1].uri
        == requested[i].text() by {
        lemma_selected_entries(requested, current, i);
        lemma_places(current, requested[i].text());
    }
    assert forall|i: int, j: int| 0 <= i < j < selection.len() implies selection[i].1
        != selection[j].1 by {
        lemma_selected_entries(requested, current, i);
        lemma_selected_entries(requested, current, j);
        lemma_places(current, requested[i].text());
        lemma_places(current, requested[j].text());
        if requested[i].text() == requested[j].text() {
            lemma_times_grow(requested, i, j);
            lemma_times_same(requested.take(j), requested[i], requested[j]);
            let at = places(current, requested[i].text());
            let m = times(requested.take(i), requested[i]) as int;
            let n = times(requested.take(j), requested[j]) as int;
            assert(at[m] < at[n]);
        } else {
            let a = places(current, requested[i].text())[times(
                requested.take(i),
                requested[i],
            ) as int];
            let b = places(current, requested[j].text())[times(
                requested.take(j),
                requested[j],
            ) as int];
            assert(current[a].uri != current[b].uri);
        }
    }
}

proof fn lemma_times_same(uris: Seq<UriModel>, a: UriModel, b: UriModel)
    requires
        a.text() == b.text(),
    ensures
        times(uris, a) == times(uris, b),
    decreases uris.len(),
{
    if uris.len() > 0 {
        lemma_times_same(uris.drop_last(), a, b);
    }
}

// ---------------------------------------------------------------------------
// Covers
// ---------------------------------------------------------------------------

/// What the standard Base64 alphabet with padding decodes a text to: bytes,
/// or what is malformed about it.
pub uninterp spec fn base64_decoded(text: Seq<char>) -> Result<Seq<u8>, Seq<char>>;

/// The view of what was decoded.
pub open spec fn decoded_view(r: Result<Vec<u8>, String>) -> Result<Seq<u8>, Seq<char>> {
    match r {
        Ok(bytes) => Ok(bytes@),
        Err(message) => Err(message@),
    }
}

/// `base64::engine::general_purpose::STANDARD.decode`, with its error in
/// words: both depend on the text alone.
#[verifier::external_body]
fn base64_decode(text: &str) -> (r: Result<Vec<u8>, String>)
    ensures
        decoded_view(r) == base64_decoded(text@),
{
    base64::Engine::decode(&base64::engine::general_purpose::STANDARD, text)
        .map_err(|error| error.to_string())
}

/// Rejects an encoded cover that is empty or too large for providers.
pub fn check_image_size(image_base64: &str) -> (r: Result<(), Failure>)
    ensures
        ({
            let bytes = encode_utf8(image_base64@).len();
            match r {
                Ok(_) => 0 < bytes <= 262_144,
                Err(error) => if bytes == 0 {
                    error@ == bad_input("image_base64"@, "image is empty"@)
                } else {
                    bytes > 262_144 && error@ == bad_input(
                        "image_base64"@,
                        "encoded image is "@ + decimal(bytes)
                            + " bytes, exceeds the provider limit of 256 KB"@,
                    )
                },
            }
        }),
{
    let bytes: usize = image_base64.as_bytes().len();
    if bytes == 0 {
        return Err(Failure::invalid_input("image_base64", "image is empty"));
    }
    if bytes > MAX_IMAGE_BASE64_BYTES {
        let n = u64_text(bytes as u64);
        let message = concat3(
            "encoded image is ",
            n.as_str(),
            " bytes, exceeds the provider limit of 256 KB",
        );
        return Err(Failure::invalid_input("image_base64", message.as_str()));
    }
    Ok(())
}

/// What a decoded cover comes to.
pub open spec fn image_outcome(decoded: Result<Seq<u8>, Seq<char>>) -> Result<
    Seq<u8>,
    FailureModel,
> {
    match decoded {
        Ok(bytes) => Ok(bytes),
        Err(message) => Err(
            bad_input("image_base64"@, "malformed base64: "@ + message),
        ),
    }
}

/// The view of a cover, or of a failure.
pub open spec fn image_view(r: Result<Vec<u8>, Failure>) -> Result<Seq<u8>, FailureModel> {
    match r {
        Ok(bytes) => Ok(bytes@),
        Err(error) => Err(error@),
    }
}

/// What a decoded cover comes to.
pub fn decoded_image(decoded: Result<Vec<u8>, String>) -> (r: Result<Vec<u8>, Failure>)
    ensures
        image_view(r) == image_outcome(decoded_view(decoded)),
{
    match decoded {
        Ok(bytes) => Ok(bytes),
        Err(message) => {
            let text = concat2("malformed base64: ", message.as_str());
            Err(Failure::invalid_input("image_base64", text.as_str()))
        },
    }
}

/// The bytes of an encoded cover.
pub fn decode_playlist_image(image_base64: &str) -> (r: Result<Vec<u8>, Failure>)
    ensures
        image_view(r) == image_outcome(base64_decoded(image_base64@)),
{
    decoded_image(base64_decode(image_base64))
}

// ---------------------------------------------------------------------------
// Creations that fail half way
// ---------------------------------------------------------------------------

/// What is known of a failure to add items: that it is open what happened,
/// that some items are there, or that none are.
#[derive(Clone, Copy, Debug, PartialEq, Eq, Structural)]
pub enum AddFailure {
    Indeterminate,
    Partial,
    Definite,
}

/// What is known of a failure to add items. `error` is the provider's, where
/// it is one, and `partial` says whether it reports what was applied.
pub fn classify_add_failure(error: Option<&ProviderError>, partial: bool) -> (r: AddFailure)
    ensures
        r == if error is Some && error->0@.indeterminate() {
            AddFailure::Indeterminate
        } else if partial {
            AddFailure::Partial
        } else {
            AddFailure::Definite
        },
{
    let open_outcome = match error {
        Some(error) => error.mutation_outcome_is_indeterminate(),
        None => false,
    };
    if open_outcome {
        AddFailure::Indeterminate
    } else if partial {
        AddFailure::Partial
    } else {
        AddFailure::Definite
    }
}

/// How adding items to a new playlist went.
#[derive(Clone, Debug, PartialEq, Eq)]
pub enum AddOutcome {
    Applied,
    TimedOut,
    Failed { kind: AddFailure, error: String },
}

/// What to do about a new playlist after items were added to it.
#[derive(Clone, Debug, PartialEq, Eq)]
pub enum PopulateStep {
    /// Everything is there.
    Done,
    /// The playlist stays, with what is to be said about it.
    Keep { message: String },
    /// Some items are there: the provider's own report is passed on.
    PassOn,
    /// Nothing is there: the playlist is removed again.
    RollBack,
}

/// A step as plain values.
pub enum PopulateModel {
    Done,
    Keep { message: Seq<char> },
    PassOn,
    RollBack,
}

impl View for PopulateStep {
    type V = PopulateModel;

    open spec fn view(&self) -> PopulateModel {
        match *self {
            PopulateStep::Done => PopulateModel::Done,
            PopulateStep::Keep { message } => PopulateModel::Keep { message: message@ },
            PopulateStep::PassOn => PopulateModel::PassOn,
            PopulateStep::RollBack => PopulateModel::RollBack,
        }
    }
}

/// What to do about a new playlist after items were added to it: only a
/// failure that certainly left nothing behind is rolled back.
pub open spec fn populate_decision(uri: UriModel, outcome: AddOutcome) -> PopulateModel {
    match outcome {
        AddOutcome::Applied => PopulateModel::Done,
        AddOutcome::TimedOut => PopulateModel::Keep {
            message: "playlist `"@ + uri.text()
                + "` was created, but adding items timed out; remote outcome is indeterminate — inspect the playlist before retrying"@,
        },
        AddOutcome::Failed { kind, error } => match kind {
            AddFailure::Indeterminate => PopulateModel::Keep {
                message: "playlist `"@ + uri.text()
                    + "` was created, but adding items had an indeterminate outcome: "@ + error@
                    + "; inspect the playlist before retrying"@,
            },
            AddFailure::Partial => PopulateModel::PassOn,
            AddFailure::Definite => PopulateModel::RollBack,
        },
    }
}

/// What to do about a new playlist after items were added to it.
pub fn populate_created_playlist(uri: &ResourceUri, outcome: &AddOutcome) -> (r: PopulateStep)
    ensures
        r@ == populate_decision(uri@, *outcome),
{
    let text = uri.as_uri();
    match outcome {
        AddOutcome::Applied => PopulateStep::Done,
        AddOutcome::TimedOut => PopulateStep::Keep {
            message: concat3(
                "playlist `",
                text.as_str(),
                "` was created, but adding items timed out; remote outcome is indeterminate — inspect the playlist before retrying",
            ),
        },
        AddOutcome::Failed { kind, error } => match kind {
            AddFailure::Indeterminate => PopulateStep::Keep {
                message: concat5(
                    "playlist `",
                    text.as_str(),
                    "` was created, but adding items had an indeterminate outcome: ",
                    error.as_str(),
                    "; inspect the playlist before retrying",
                ),
            },
            AddFailure::Partial => PopulateStep::PassOn,
            AddFailure::Definite => PopulateStep::RollBack,
        },
    }
}

/// How removing a new playlist again went.
#[derive(Clone, Debug, PartialEq, Eq)]
pub enum RollbackOutcome {
    Undone,
    Failed { error: String },
    TimedOut,
}

/// How a creation failed in the end: it left nothing, or something that the
/// user has to look after.
#[derive(Clone, Debug, PartialEq, Eq)]
pub enum CreationFailure {
    RolledBack { message: String },
    Retained { message: String },
}

/// A failed creation as plain values.
pub enum CreationFailureModel {
    RolledBack { message: Seq<char> },
    Retained { message: Seq<char> },
}

impl View for CreationFailure {
    type V = CreationFailureModel;

    open spec fn view(&self) -> CreationFailureModel {
        match *self {
            CreationFailure::RolledBack { message } => CreationFailureModel::RolledBack {
                message: message@,
            },
            CreationFailure::Retained { message } => CreationFailureModel::Retained {
                message: message@,
            },
        }
    }
}

/// How a creation failed whose items could not be added.
pub open spec fn failed_population(
    uri: UriModel,
    add_error: Seq<char>,
    rollback: RollbackOutcome,
) -> CreationFailureModel {
    match rollback {
        RollbackOutcome::Undone => CreationFailureModel::RolledBack {
            message: "playlist creation was rolled back because adding items failed: "@ + add_error,
        },
        RollbackOutcome::Failed { error } => CreationFailureModel::Retained {
            message: "playlist `"@ + uri.text() + "` remains empty: adding items failed ("@
                + add_error + ") and rollback failed ("@ + error@
                + "); delete it manually before retrying"@,
        },
        RollbackOutcome::TimedOut => CreationFailureModel::Retained {
            message: "playlist `"@ + uri.text() + "` may remain empty: adding items failed ("@
                + add_error
                + ") and rollback timed out; inspect/delete it manually before retrying"@,
        },
    }
}

/// How a creation failed whose items could not be added.
pub fn rollback_population(
    uri: &ResourceUri,
    add_error: &str,
    rollback: &RollbackOutcome,
) -> (r: CreationFailure)
    ensures
        r@ == failed_population(uri@, add_error@, *rollback),
{
    let text = uri.as_uri();
    match rollback {
        RollbackOutcome::Undone => CreationFailure::RolledBack {
            message: concat2(
                "playlist creation was rolled back because adding items failed: ",
                add_error,
            ),
        },
        RollbackOutcome::Failed { error } => {
            let mut message = concat5(
                "playlist `",
                text.as_str(),
                "` remains empty: adding items failed (",
                add_error,
                ") and rollback failed (",
            );
            message.append(error.as_str());
            message.append("); delete it manually before retrying");
            CreationFailure::Retained { message }
        },
        RollbackOutcome::TimedOut => CreationFailure::Retained {
            message: concat5(
                "playlist `",
                text.as_str(),
                "` may remain empty: adding items failed (",
                add_error,
                ") and rollback timed out; inspect/delete it manually before retrying",
            ),
        },
    }
}

/// How a creation failed of which a later step failed.
pub open spec fn failed_creation(
    uri: UriModel,
    failed_step: Seq<char>,
    cause: Seq<char>,
    rollback: RollbackOutcome,
) -> CreationFailureModel {
    match rollback {
        RollbackOutcome::Undone => CreationFailureModel::RolledBack {
            message: "playlist creation was rolled back after "@ + failed_step + " failed: "@
                + cause,
        },
        RollbackOutcome::Failed { error } => CreationFailureModel::Retained {
            message: "playlist `"@ + uri.text() + "` remains: "@ + failed_step + " failed ("@
                + cause + ") and rollback failed ("@ + error@
                + "); delete it manually before retrying"@,
        },
        RollbackOutcome::TimedOut => CreationFailureModel::Retained {
            message: "playlist `"@ + uri.text() + "` may remain: "@ + failed_step + " failed ("@
                + cause + ") and rollback timed out; inspect/delete it manually before retrying"@,
        },
    }
}

/// How a creation failed of which a later step failed.
pub fn rollback_created_playlist(
    uri: &ResourceUri,
    failed_step: &str,
    cause: &str,
    rollback: &RollbackOutcome,
) -> (r: CreationFailure)
    ensures
        r@ == failed_creation(uri@, failed_step@, cause@, *rollback),
{
    let text = uri.as_uri();
    match rollback {
        RollbackOutcome::Undone => CreationFailure::RolledBack {
            message: concat4(
                "playlist creation was rolled back after ",
                failed_step,
                " failed: ",
                cause,
            ),
        },
        RollbackOutcome::Failed { error } => {
            let mut message = concat5(
                "playlist `",
                text.as_str(),
                "` remains: ",
                failed_step,
                " failed (",
            );
            message.append(cause);
            message.append(") and rollback failed (");
            message.append(error.as_str());
            message.append("); delete it manually before retrying");
            CreationFailure::Retained { message }
        },
        RollbackOutcome::TimedOut => {
            let mut message = concat5(
                "playlist `",
                text.as_str(),
                "` may remain: ",
                failed_step,
                " failed (",
            );
            message.append(cause);
            message.append(
                ") and rollback timed out; inspect/delete it manually before retrying",
            );
            CreationFailure::Retained { message }
        },
    }
}

/// Only a failure that certainly left nothing behind removes the playlist
/// again, and a creation counts as rolled back only where the removal went
/// through.
pub proof fn rollbacks_are_never_guessed(
    uri: UriModel,
    outcome: AddOutcome,
    add_error: Seq<char>,
    rollback: RollbackOutcome,
)
    ensures
        populate_decision(uri, outcome) is RollBack <==> (outcome matches AddOutcome::Failed {
            kind,
            ..
        } && kind == AddFailure::Definite),
        failed_population(uri, add_error, rollback) is RolledBack <==> rollback
            == RollbackOutcome::Undone,
{
}

// ---------------------------------------------------------------------------
// What cannot be read
// ---------------------------------------------------------------------------

/// The failure of a playlist whose items cannot be read.
pub fn unreadable_playlist(uri: &ResourceUri, reason: AccessUnavailable) -> (r: Failure)
    ensures
        r@ == FailureModel::Provider(
            ProviderErrorModel::Forbidden {
                operation: "read playlist "@ + uri@.text() + " items ("@ + reason.name() + ")"@,
            },
        ),
{
    let text = uri.as_uri();
    Failure::Provider(
        ProviderError::Forbidden {
            operation: concat5("read playlist ", text.as_str(), " items (", reason.label(), ")"),
        },
    )
}

/// The items that a removal starts from, or the failure where they cannot be
/// read.
pub fn removal_pre_state(outcome: AccessOutcome<Vec<MediaItem>>) -> (r: Result<
    Vec<MediaItem>,
    Failure,
>)
    ensures
        match outcome {
            AccessOutcome::Available(items) => r == Ok::<Vec<MediaItem>, Failure>(items),
            AccessOutcome::Unavailable(reason) => r is Err && r->Err_0@ == FailureModel::Provider(
                ProviderErrorModel::Forbidden {
                    operation: "capture playlist removal pre-state ("@ + reason.name() + ")"@,
                },
            ),
        },
{
    match outcome {
        AccessOutcome::Available(items) => Ok(items),
        AccessOutcome::Unavailable(reason) => Err(
            Failure::Provider(
                ProviderError::Forbidden {
                    operation: concat3(
                        "capture playlist removal pre-state (",
                        reason.label(),
                        ")",
                    ),
                },
            ),
        ),
    }
}

// ---------------------------------------------------------------------------
// What can be undone
// ---------------------------------------------------------------------------

/// How an operation is undone.
#[derive(Debug, PartialEq, Eq)]
pub enum ReversalPlan {
    NotReversible { reason: String },
    PlaylistAddAtPositions {
        playlist_id: String,
        items: Vec<RemovedItem>,
        version_token: Option<String>,
    },
    TransferToPriorDevice { device_id: String, provider: ProviderId },
    PlaylistRemoveTracks {
        playlist_id: String,
        uris: Vec<String>,
        version_token: Option<String>,
    },
    PlaylistDelete { playlist_id: String },
    LibraryUnsave { uri: String },
    LibrarySave { uri: String, prior_added_at_ms: Option<i64> },
}

/// A reversal as plain values.
pub enum ReversalModel {
    NotReversible { reason: Seq<char> },
    PlaylistAddAtPositions {
        playlist_id: Seq<char>,
        items: Seq<RemovedModel>,
        version_token: Option<Seq<char>>,
    },
    TransferToPriorDevice { device_id: Seq<char>, provider: Seq<char> },
    PlaylistRemoveTracks {
        playlist_id: Seq<char>,
        uris: Seq<Seq<char>>,
        version_token: Option<Seq<char>>,
    },
    PlaylistDelete { playlist_id: Seq<char> },
    LibraryUnsave { uri: Seq<char> },
    LibrarySave { uri: Seq<char>, prior_added_at_ms: Option<i64> },
}

impl View for ReversalPlan {
    type V = ReversalModel;

    open spec fn view(&self) -> ReversalModel {
        match *self {
            ReversalPlan::NotReversible { reason } => ReversalModel::NotReversible {
                reason: reason@,
            },
            ReversalPlan::PlaylistAddAtPositions { playlist_id, items, version_token }
                => ReversalModel::PlaylistAddAtPositions {
                playlist_id: playlist_id@,
                items: seq_view(items@),
                version_token: opt_text(version_token),
            },
            ReversalPlan::TransferToPriorDevice { device_id, provider }
                => ReversalModel::TransferToPriorDevice {
                device_id: device_id@,
                provider: provider@,
            },
            ReversalPlan::PlaylistRemoveTracks { playlist_id, uris, version_token }
                => ReversalModel::PlaylistRemoveTracks {
                playlist_id: playlist_id@,
                uris: texts(uris@),
                version_token: opt_text(version_token),
            },
            ReversalPlan::PlaylistDelete { playlist_id } => ReversalModel::PlaylistDelete {
                playlist_id: playlist_id@,
            },
            ReversalPlan::LibraryUnsave { uri } => ReversalModel::LibraryUnsave { uri: uri@ },
            ReversalPlan::LibrarySave { uri, prior_added_at_ms } => ReversalModel::LibrarySave {
                uri: uri@,
                prior_added_at_ms,
            },
        }
    }
}

fn copy_removed(items: &[RemovedItem]) -> (r: Vec<RemovedItem>)
    ensures
        seq_view(r@) == seq_view(items@),
{
    let mut out: Vec<RemovedItem> = Vec::new();
    let mut i: usize = 0;
    while i < items.len()
        invariant
            i <= items@.len(),
            seq_view(out@) =~= seq_view(items@).take(i as int),
        decreases items@.len() - i,
    {
        out.push(items[i].clone());
        i = i + 1;
    }
    assert(seq_view(out@) =~= seq_view(items@));
    out
}

/// How a removal is undone once it is carried out: what was removed goes back
/// to where it stood, against the version that the removal led to. A provider
/// without versions gives no way back, and one that has them must name it.
pub fn removal_reversal(
    plan: &PlaylistRemovePlan,
    version_tokens: bool,
    post_version: Option<String>,
) -> (r: Result<ReversalPlan, String>)
    ensures
        match r {
            Ok(reversal) => if version_tokens {
                post_version is Some && reversal@ == (ReversalModel::PlaylistAddAtPositions {
                    playlist_id: plan.resolved.id@,
                    items: seq_view(plan.removed_items@),
                    version_token: opt_text(post_version),
                })
            } else {
                reversal@ == (ReversalModel::NotReversible {
                    reason: "playlist removal reversal awaits the provider's post-mutation version"@,
                })
            },
            Err(reason) => version_tokens && post_version is None && reason@
                == "provider omitted the required post-mutation playlist version"@,
        },
{
    if !version_tokens {
        return Ok(
            ReversalPlan::NotReversible {
                reason: "playlist removal reversal awaits the provider's post-mutation version".to_owned(),
            },
        );
    }
    match post_version {
        Some(version) => Ok(
            ReversalPlan::PlaylistAddAtPositions {
                playlist_id: plan.resolved.id.clone(),
                items: copy_removed(plan.removed_items.as_slice()),
                version_token: Some(version),
            },
        ),
        None => Err(
            "provider omitted the required post-mutation playlist version".to_owned(),
        ),
    }
}

/// How a transfer is undone: back to the device that played before, where
/// there was one.
pub fn transfer_reversal(prior_device_id: Option<String>, provider: &ProviderId) -> (r:
    ReversalPlan)
    ensures
        r@ == match prior_device_id {
            Some(id) => ReversalModel::TransferToPriorDevice {
                device_id: id@,
                provider: provider@,
            },
            None => ReversalModel::NotReversible {
                reason: "no prior active device to restore"@,
            },
        },
{
    match prior_device_id {
        Some(device_id) => ReversalPlan::TransferToPriorDevice {
            device_id,
            provider: provider.clone(),
        },
        None => ReversalPlan::NotReversible {
            reason: "no prior active device to restore".to_owned(),
        },
    }
}

fn copy_texts(v: &[String]) -> (r: Vec<String>)
    ensures
        texts(r@) == texts(v@),
{
    let mut out: Vec<String> = Vec::new();
    let mut i: usize = 0;
    while i < v.len()
        invariant
            i <= v@.len(),
            texts(out@) =~= texts(v@).take(i as int),
        decreases v@.len() - i,
    {
        out.push(v[i].clone());
        i = i + 1;
    }
    assert(texts(out@) =~= texts(v@));
    out
}

/// How an addition to a playlist is undone: by removing the added tracks,
/// against the version that they were added to.
pub fn addition_reversal(playlist_id: &str, uris: &[String], version_token: Option<String>) -> (r:
    ReversalPlan)
    ensures
        r@ == (ReversalModel::PlaylistRemoveTracks {
            playlist_id: playlist_id@,
            uris: texts(uris@),
            version_token: opt_text(version_token),
        }),
{
    ReversalPlan::PlaylistRemoveTracks {
        playlist_id: playlist_id.to_owned(),
        uris: copy_texts(uris),
        version_token,
    }
}

/// How the creation of a playlist is undone: by deleting it.
pub fn creation_reversal(playlist_id: &str) -> (r: ReversalPlan)
    ensures
        r@ == (ReversalModel::PlaylistDelete { playlist_id: playlist_id@ }),
{
    ReversalPlan::PlaylistDelete { playlist_id: playlist_id.to_owned() }
}

/// How saving to the library is undone.
pub fn save_reversal(uri: &str) -> (r: ReversalPlan)
    ensures
        r@ == (ReversalModel::LibraryUnsave { uri: uri@ }),
{
    ReversalPlan::LibraryUnsave { uri: uri.to_owned() }
}

/// How removing from the library is undone: by saving again, at a time that is
/// not known any more.
pub fn unsave_reversal(uri: &str) -> (r: ReversalPlan)
    ensures
        r@ == (ReversalModel::LibrarySave { uri: uri@, prior_added_at_ms: None }),
{
    ReversalPlan::LibrarySave { uri: uri.to_owned(), prior_added_at_ms: None }
}

/// An addition to the queue has no way back: queues cannot be removed from.
pub fn queue_reversal() -> (r: ReversalPlan)
    ensures
        r@ == (ReversalModel::NotReversible {
            reason: "the remote queue has no remove operation"@,
        }),
{
    ReversalPlan::NotReversible { reason: "the remote queue has no remove operation".to_owned() }
}

/// A playback command has no way back.
pub fn transport_reversal() -> (r: ReversalPlan)
    ensures
        r@ == (ReversalModel::NotReversible { reason: "transport"@ }),
{
    ReversalPlan::NotReversible { reason: "transport".to_owned() }
}

// ---------------------------------------------------------------------------
// Laws of undoing
// ---------------------------------------------------------------------------

/// Whether the item at a place is among those that are removed.
pub open spec fn is_taken(removed: Seq<RemovedModel>, at: int) -> bool {
    exists|k: int| 0 <= k < removed.len() && (#[trigger] removed[k]).position == at
}

/// What a removal leaves of a list of URIs.
pub open spec fn left_behind(uris: Seq<Seq<char>>, removed: Seq<RemovedModel>) -> Seq<Seq<char>>
    decreases uris.len(),
{
    if uris.len() == 0 {
        Seq::empty()
    } else if is_taken(removed, uris.len() - 1) {
        left_behind(uris.drop_last(), removed)
    } else {
        left_behind(uris.drop_last(), removed).push(uris.last())
    }
}

/// A list of URIs after removed items were put in again, one after the other,
/// each at the place where it stood.
pub open spec fn put_back(uris: Seq<Seq<char>>, removed: Seq<RemovedModel>) -> Seq<Seq<char>>
    decreases removed.len(),
{
    if removed.len() == 0 {
        uris
    } else {
        put_back(uris, removed.drop_last()).insert(
            removed.last().position as int,
            removed.last().uri,
        )
    }
}

proof fn lemma_left_behind_agrees(
    uris: Seq<Seq<char>>,
    a: Seq<RemovedModel>,
    b: Seq<RemovedModel>,
)
    requires
        forall|i: int|
            0 <= i < uris.len() ==> (#[trigger] is_taken(a, i) <==> is_taken(b, i)),
    ensures
        left_behind(uris, a) == left_behind(uris, b),
    decreases uris.len(),
{
    if uris.len() > 0 {
        lemma_left_behind_agrees(uris.drop_last(), a, b);
        assert(is_taken(a, uris.len() - 1) <==> is_taken(b, uris.len() - 1));
    }
}

/// Whether removed items stand in the strict order of their places, and say
/// what stood there.
spec fn is_record(uris: Seq<Seq<char>>, removed: Seq<RemovedModel>) -> bool {
    &&& forall|i: int, j: int|
        0 <= i < j < removed.len() ==> removed[i].position < removed[j].position
    &&& forall|i: int|
        0 <= i < removed.len() ==> (#[trigger] removed[i]).position < uris.len()
            && uris[removed[i].position as int] == removed[i].uri
}

proof fn lemma_last_taken(uris: Seq<Seq<char>>, removed: Seq<RemovedModel>, n: int)
    requires
        is_record(uris, removed),
        removed.len() > 0,
        removed.last().position < n <= uris.len(),
    ensures
        ({
            let at = removed.last().position as int;
            left_behind(uris.take(n), removed) == left_behind(
                uris.take(n).remove(at),
                removed.drop_last(),
            )
        }),
    decreases n,
{
    let at = removed.last().position as int;
    let init = removed.drop_last();
    let part = uris.take(n);
    assert(part.drop_last() =~= uris.take(n - 1));
    assert forall|i: int| 0 <= i < n implies (#[trigger] is_taken(removed, i) <==> is_taken(init, i)
        || i == at) by {
        if is_taken(removed, i) {
            let k = choose|k: int| 0 <= k < removed.len() && (#[trigger] removed[k]).position == i;
            if k < init.len() {
                assert(init[k].position == i);
            }
        }
        if is_taken(init, i) {
            let k = choose|k: int| 0 <= k < init.len() && (#[trigger] init[k]).position == i;
            assert(removed[k].position == i);
        }
        if i == at {
            assert(removed[removed.len() - 1].position == i);
        }
    }
    assert forall|i: int| at <= i implies !#[trigger] is_taken(init, i) by {
        if is_taken(init, i) {
            let k = choose|k: int| 0 <= k < init.len() && (#[trigger] init[k]).position == i;
            assert(removed[k].position < removed[removed.len() - 1].position);
        }
    }
    if n == at + 1 {
        assert(is_taken(removed, at));
        assert(part.remove(at) =~= part.drop_last());
        assert forall|i: int| 0 <= i < part.drop_last().len() implies (#[trigger] is_taken(
            removed,
            i,
        ) <==> is_taken(init, i)) by {
        }
        lemma_left_behind_agrees(part.drop_last(), removed, init);
    } else {
        lemma_last_taken(uris, removed, n - 1);
        assert(!is_taken(removed, n - 1));
        assert(!is_taken(init, n - 2));
        let smaller = part.remove(at);
        assert(smaller.drop_last() =~= uris.take(n - 1).remove(at));
        assert(smaller.last() == part.last());
    }
}

proof fn lemma_put_back(uris: Seq<Seq<char>>, removed: Seq<RemovedModel>)
    requires
        is_record(uris, removed),
    ensures
        put_back(left_behind(uris, removed), removed) == uris,
    decreases removed.len(),
{
    if removed.len() == 0 {
        lemma_nothing_taken(uris);
        assert(removed =~= Seq::<RemovedModel>::empty());
    } else {
        let at = removed.last().position as int;
        let init = removed.drop_last();
        let smaller = uris.remove(at);
        assert(removed[removed.len() - 1].position < uris.len());
        lemma_last_taken(uris, removed, uris.len() as int);
        assert(uris.take(uris.len() as int) =~= uris);
        assert(is_record(smaller, init)) by {
            assert forall|i: int| 0 <= i < init.len() implies (#[trigger] init[i]).position
                < smaller.len() && smaller[init[i].position as int] == init[i].uri by {
                assert(init[i] == removed[i]);
                assert(removed[i].position < removed[removed.len() - 1].position);
            }
            assert forall|i: int, j: int| 0 <= i < j < init.len() implies init[i].position
                < init[j].position by {
                assert(removed[i].position < removed[j].position);
            }
        }
        lemma_put_back(smaller, init);
        assert(uris[at] == removed.last().uri);
        assert(smaller.insert(at, removed.last().uri) =~= uris);
    }
}

proof fn lemma_nothing_taken(uris: Seq<Seq<char>>)
    ensures
        left_behind(uris, Seq::empty()) == uris,
    decreases uris.len(),
{
    if uris.len() > 0 {
        lemma_nothing_taken(uris.drop_last());
        assert(!is_taken(Seq::empty(), uris.len() - 1));
        assert(uris.drop_last().push(uris.last()) =~= uris);
    } else {
        assert(left_behind(uris, Seq::empty()) =~= uris);
    }
}

/// Undoing a removal restores the playlist: the recorded items, put in again
/// in the order of their places, make the list what it was.
pub proof fn removals_can_be_undone(
    requested: Seq<UriModel>,
    current: Seq<MediaItemModel>,
    removed: Seq<RemovedModel>,
)
    requires
        removal(requested, current) is Ok,
        by_position(removed),
        removed.to_multiset() == removed_of(removal(requested, current)->Ok_0).to_multiset(),
    ensures
        ({
            let taken = removed_of(removal(requested, current)->Ok_0);
            &&& removed.len() == requested.len()
            &&& put_back(left_behind(item_uris(current), taken), removed) == item_uris(current)
        }),
{
    let selection = removal(requested, current)->Ok_0;
    let taken = removed_of(selection);
    let uris = item_uris(current);
    selections_are_exact(requested, current);
    assert(taken.no_duplicates()) by {
        assert forall|i: int, j: int| 0 <= i < taken.len() && 0 <= j < taken.len() && i
            != j implies taken[i] != taken[j] by {
            assert(selection[i].1 != selection[j].1);
            assert(0 <= selection[i].1 < current.len() && 0 <= selection[j].1 < current.len());
        }
    }
    taken.lemma_multiset_has_no_duplicates();
    removed.lemma_multiset_has_no_duplicates_conv();
    removed.to_multiset_ensures();
    taken.to_multiset_ensures();
    assert forall|r: RemovedModel| removed.contains(r) <==> taken.contains(r) by {
        assert(removed.contains(r) <==> removed.to_multiset().count(r) > 0);
        assert(taken.contains(r) <==> taken.to_multiset().count(r) > 0);
    }
    assert forall|i: int| 0 <= i < removed.len() implies (#[trigger] removed[i]).position
        < uris.len() && uris[removed[i].position as int] == removed[i].uri by {
        assert(removed.contains(removed[i]));
        let k = choose|k: int| 0 <= k < taken.len() && taken[k] == removed[i];
        assert(selection[k].0 == requested[k]);
    }
    assert forall|i: int, j: int| 0 <= i < j < removed.len() implies removed[i].position
        < removed[j].position by {
        if removed[i].position == removed[j].position {
            assert(uris[removed[i].position as int] == removed[i].uri);
            assert(uris[removed[j].position as int] == removed[j].uri);
            assert(removed[i] == removed[j]);
        }
    }
    assert forall|i: int| 0 <= i < uris.len() implies (#[trigger] is_taken(taken, i) <==> is_taken(
        removed,
        i,
    )) by {
        if is_taken(taken, i) {
            let k = choose|k: int| 0 <= k < taken.len() && (#[trigger] taken[k]).position == i;
            assert(taken.contains(taken[k]));
            let m = choose|m: int| 0 <= m < removed.len() && removed[m] == taken[k];
            assert(removed[m].position == i);
        }
        if is_taken(removed, i) {
            let k = choose|k: int| 0 <= k < removed.len() && (#[trigger] removed[k]).position == i;
            assert(removed.contains(removed[k]));
            let m = choose|m: int| 0 <= m < taken.len() && taken[m] == removed[k];
            assert(taken[m].position == i);
        }
    }
    lemma_left_behind_agrees(uris, taken, removed);
    lemma_put_back(uris, removed);
}

/// A list of URIs without the named ones, wherever they stand.
pub open spec fn without_uris(uris: Seq<Seq<char>>, named: Seq<Seq<char>>) -> Seq<Seq<char>>
    decreases uris.len(),
{
    if uris.len() == 0 {
        Seq::empty()
    } else if named.contains(uris.last()) {
        without_uris(uris.drop_last(), named)
    } else {
        without_uris(uris.drop_last(), named).push(uris.last())
    }
}

/// A list of URIs after a plan of undoing was carried out on the playlist of
/// that id: named tracks go, wherever they stand, and recorded items come back
/// to their places. Other plans leave it alone.
pub open spec fn undone_list(
    id: Seq<char>,
    uris: Seq<Seq<char>>,
    plan: ReversalModel,
) -> Seq<Seq<char>> {
    match plan {
        ReversalModel::PlaylistRemoveTracks { playlist_id, uris: named, .. } => if playlist_id
            == id {
            without_uris(uris, named)
        } else {
            uris
        },
        ReversalModel::PlaylistAddAtPositions { playlist_id, items, .. } => if playlist_id == id {
            put_back(uris, items)
        } else {
            uris
        },
        _ => uris,
    }
}

/// The playlists that there are after a plan of undoing was carried out.
pub open spec fn undone_playlists(ids: Set<Seq<char>>, plan: ReversalModel) -> Set<Seq<char>> {
    match plan {
        ReversalModel::PlaylistDelete { playlist_id } => ids.remove(playlist_id),
        _ => ids,
    }
}

/// The URIs that are saved after a plan of undoing was carried out.
pub open spec fn undone_library(saved: Set<Seq<char>>, plan: ReversalModel) -> Set<Seq<char>> {
    match plan {
        ReversalModel::LibraryUnsave { uri } => saved.remove(uri),
        ReversalModel::LibrarySave { uri, .. } => saved.insert(uri),
        _ => saved,
    }
}

proof fn lemma_without_added(before: Seq<Seq<char>>, added: Seq<Seq<char>>, n: int)
    requires
        forall|i: int| 0 <= i < before.len() ==> !added.contains(#[trigger] before[i]),
        0 <= n <= before.len() + added.len(),
    ensures
        without_uris((before + added).take(n), added) == if n <= before.len() {
            before.take(n)
        } else {
            before
        },
    decreases n,
{
    let all = before + added;
    if n > 0 {
        lemma_without_added(before, added, n - 1);
        assert(all.take(n).drop_last() =~= all.take(n - 1));
        assert(all.take(n).last() == all[n - 1]);
        if n <= before.len() {
            assert(all[n - 1] == before[n - 1]);
            assert(before.take(n - 1).push(before[n - 1]) =~= before.take(n));
        } else {
            assert(all[n - 1] == added[n - 1 - before.len()]);
            assert(before.take(before.len() as int) =~= before);
        }
    } else {
        assert(all.take(0) =~= Seq::<Seq<char>>::empty());
        assert(before.take(0) =~= Seq::<Seq<char>>::empty());
    }
}

/// Undoing an addition restores the playlist, where none of the added tracks
/// stood in it before.
pub proof fn additions_can_be_undone(
    playlist_id: Seq<char>,
    before: Seq<Seq<char>>,
    added: Seq<Seq<char>>,
    version_token: Option<Seq<char>>,
)
    requires
        forall|i: int| 0 <= i < added.len() ==> !before.contains(#[trigger] added[i]),
    ensures
        undone_list(
            playlist_id,
            before + added,
            ReversalModel::PlaylistRemoveTracks { playlist_id, uris: added, version_token },
        ) == before,
{
    assert forall|i: int| 0 <= i < before.len() implies !added.contains(#[trigger] before[i]) by {
        if added.contains(before[i]) {
            let k = choose|k: int| 0 <= k < added.len() && added[k] == before[i];
            assert(before.contains(added[k]));
        }
    }
    let all = before + added;
    lemma_without_added(before, added, all.len() as int);
    assert(all.take(all.len() as int) =~= all);
    assert(before.take(before.len() as int) =~= before);
}

/// Undoing a creation leaves the playlists that there were, and undoing a save
/// or an unsave the URIs that were saved, where the request changed them.
pub proof fn creations_and_saves_can_be_undone(
    ids: Set<Seq<char>>,
    created: Seq<char>,
    saved: Set<Seq<char>>,
    uri: Seq<char>,
)
    ensures
        !ids.contains(created) ==> undone_playlists(
            ids.insert(created),
            ReversalModel::PlaylistDelete { playlist_id: created },
        ) == ids,
        !saved.contains(uri) ==> undone_library(
            saved.insert(uri),
            ReversalModel::LibraryUnsave { uri },
        ) == saved,
        saved.contains(uri) ==> undone_library(
            saved.remove(uri),
            ReversalModel::LibrarySave { uri, prior_added_at_ms: None },
        ) == saved,
{
    assert(!ids.contains(created) ==> ids.insert(created).remove(created) =~= ids);
    assert(!saved.contains(uri) ==> saved.insert(uri).remove(uri) =~= saved);
    assert(saved.contains(uri) ==> saved.remove(uri).insert(uri) =~= saved);
}

/// What the plan of a removal undoes is the removal: carried out on what is
/// left, it gives the playlist as it was.
pub proof fn removal_plans_restore_the_playlist(
    playlist_id: Seq<char>,
    requested: Seq<UriModel>,
    current: Seq<MediaItemModel>,
    removed: Seq<RemovedModel>,
    version_token: Option<Seq<char>>,
)
    requires
        removal(requested, current) is Ok,
        by_position(removed),
        removed.to_multiset() == removed_of(removal(requested, current)->Ok_0).to_multiset(),
    ensures
        undone_list(
            playlist_id,
            left_behind(item_uris(current), removed_of(removal(requested, current)->Ok_0)),
            ReversalModel::PlaylistAddAtPositions { playlist_id, items: removed, version_token },
        ) == item_uris(current),
{
    removals_can_be_undone(requested, current, removed);
}

proof fn lemma_all_places(items: Seq<MediaItemModel>, uri: Seq<char>, p: int)
    requires
        0 <= p < items.len(),
        items[p].uri == uri,
    ensures
        places(items, uri).contains(p),
    decreases items.len(),
{
    let all = places(items, uri);
    let before = places(items.drop_last(), uri);
    if p < items.len() - 1 {
        assert(items.drop_last()[p] == items[p]);
        lemma_all_places(items.drop_last(), uri, p);
        let k = before.index_of(p);
        assert(all[k] == p);
    } else {
        assert(all[before.len() as int] == p);
    }
}

proof fn lemma_earlier_naming(uris: Seq<UriModel>, uri: UriModel, n: int) -> (j: int)
    requires
        0 <= n < times(uris, uri),
    ensures
        0 <= j < uris.len(),
        uris[j].text() == uri.text(),
        times(uris.take(j), uri) == n,
    decreases uris.len(),
{
    let init = uris.drop_last();
    if n < times(init, uri) {
        let j = lemma_earlier_naming(init, uri, n);
        assert(init.take(j) =~= uris.take(j));
        assert(init[j] == uris[j]);
        j
    } else {
        let j = uris.len() - 1;
        assert(uris.take(j) =~= init);
        j
    }
}

/// A resource that is named once more means its next occurrence: whatever
/// holds it before the place that a naming means is meant by an earlier one.
pub proof fn earlier_occurrences_are_named_first(
    requested: Seq<UriModel>,
    current: Seq<MediaItemModel>,
    i: int,
    p: int,
) -> (j: int)
    requires
        selected(requested, current) is Ok,
        0 <= i < requested.len(),
        0 <= p < selected(requested, current)->Ok_0[i].1,
        p < current.len(),
        current[p].uri == requested[i].text(),
    ensures
        0 <= j < i,
        selected(requested, current)->Ok_0[j].1 == p,
{
    let uri = requested[i];
    let at = places(current, uri.text());
    let n = times(requested.take(i), uri);
    lemma_selected_entries(requested, current, i);
    lemma_places(current, uri.text());
    lemma_all_places(current, uri.text(), p);
    let m = at.index_of(p);
    assert(at[m] == p);
    assert(m < n) by {
        if m > n {
            assert(at[n as int] < at[m]);
        }
    }
    let j = lemma_earlier_naming(requested.take(i), uri, m);
    assert(requested.take(i).take(j) =~= requested.take(j));
    assert(requested.take(i)[j] == requested[j]);
    lemma_selected_entries(requested, current, j);
    lemma_times_same(requested.take(j), requested[j], uri);
    j
}

/// The places among the first ones of a list at which a resource is meant.
spec fn meant_at(requested: Seq<UriModel>, at: Seq<int>, uri: UriModel, n: int) -> Set<int>
    decreases n,
{
    if n <= 0 {
        Set::empty()
    } else if requested[n - 1].text() == uri.text() {
        meant_at(requested, at, uri, n - 1).insert(at[n - 1])
    } else {
        meant_at(requested, at, uri, n - 1)
    }
}

proof fn lemma_meant_at(
    requested: Seq<UriModel>,
    current: Seq<MediaItemModel>,
    at: Seq<int>,
    uri: UriModel,
    n: int,
)
    requires
        at.len() == requested.len(),
        0 <= n <= requested.len(),
        forall|i: int|
            0 <= i < at.len() ==> 0 <= #[trigger] at[i] < current.len() && current[at[i]].uri
                == requested[i].text(),
        forall|i: int, j: int| 0 <= i < j < at.len() ==> at[i] != at[j],
    ensures
        meant_at(requested, at, uri, n).finite(),
        meant_at(requested, at, uri, n).len() == times(requested.take(n), uri),
        forall|p: int|
            meant_at(requested, at, uri, n).contains(p) ==> exists|j: int|
                0 <= j < n && #[trigger] at[j] == p,
        meant_at(requested, at, uri, n).subset_of(places(current, uri.text()).to_set()),
    decreases n,
{
    if n > 0 {
        lemma_meant_at(requested, current, at, uri, n - 1);
        assert(requested.take(n).drop_last() =~= requested.take(n - 1));
        assert(requested.take(n).last() == requested[n - 1]);
        if requested[n - 1].text() == uri.text() {
            lemma_all_places(current, uri.text(), at[n - 1]);
            let before = meant_at(requested, at, uri, n - 1);
            if before.contains(at[n - 1]) {
                let j = choose|j: int| 0 <= j < n - 1 && #[trigger] at[j] == at[n - 1];
                assert(at[j] != at[n - 1]);
            }
        }
    } else {
        assert(requested.take(0) =~= Seq::<UriModel>::empty());
    }
}

/// A request finds what it names wherever that is there at all: where each
/// resource can be given a place of its own that holds it, the request is
/// served, in a playlist of any length whose places can be written down.
pub proof fn occurrences_that_are_there_are_found(
    requested: Seq<UriModel>,
    current: Seq<MediaItemModel>,
    at: Seq<int>,
)
    requires
        at.len() == requested.len(),
        forall|i: int|
            0 <= i < at.len() ==> 0 <= #[trigger] at[i] < current.len() && current[at[i]].uri
                == requested[i].text(),
        forall|i: int, j: int| 0 <= i < j < at.len() ==> at[i] != at[j],
    ensures
        selected(requested, current) is Ok,
        current.len() <= 4_294_967_296 ==> removal(requested, current) is Ok,
        current.len() > 4_294_967_296 ==> removal(requested, current) is Err,
    decreases requested.len(),
{
    if requested.len() > 0 {
        let n = requested.len() - 1;
        let uri = requested.last();
        let init = requested.drop_last();
        let earlier = at.drop_last();
        assert forall|i: int| 0 <= i < earlier.len() implies 0 <= #[trigger] earlier[i]
            < current.len() && current[earlier[i]].uri == init[i].text() by {
            assert(earlier[i] == at[i] && init[i] == requested[i]);
        }
        occurrences_that_are_there_are_found(init, current, earlier);
        lemma_meant_at(requested, current, at, uri, n + 1);
        lemma_places(current, uri.text());
        let all = places(current, uri.text());
        assert(all.no_duplicates());
        all.unique_seq_to_set();
        vstd::set_lib::lemma_len_subset(meant_at(requested, at, uri, n + 1), all.to_set());
        assert(requested.take(n + 1) =~= requested);
        assert(times(requested, uri) == times(init, uri) + 1);
    }
}

/// A selection goes to the provider as one reference for each resource, with
/// its one place, and is recorded with the same place.
pub proof fn selections_are_sent_and_recorded(
    requested: Seq<UriModel>,
    current: Seq<MediaItemModel>,
    i: int,
)
    requires
        removal(requested, current) is Ok,
        0 <= i < requested.len(),
    ensures
        ({
            let selection = removal(requested, current)->Ok_0;
            let refs = refs_of(selection);
            let removed = removed_of(selection);
            &&& refs.len() == requested.len() && removed.len() == requested.len()
            &&& refs[i].uri == requested[i] && refs[i].positions.len() == 1
            &&& removed[i].uri == requested[i].text() && removed[i].position
                == refs[i].positions[0]
            &&& refs[i].positions[0] < current.len()
            &&& current[refs[i].positions[0] as int].uri == requested[i].text()
        }),
{
    selections_are_exact(requested, current);
    let selection = removal(requested, current)->Ok_0;
    assert(0 <= selection[i].1 < current.len());
}

/// A removal goes ahead exactly when the provider is still the one it was
/// prepared for, the version is known wherever versions are, and every
/// occurrence is there.
pub proof fn removals_go_ahead_when_nothing_changed(
    preflight_provider: Seq<char>,
    provider: Seq<char>,
    version_tokens: bool,
    resolved: PlaylistModel,
    playlist_uri: UriModel,
    requested: Seq<UriModel>,
    current: Seq<MediaItemModel>,
)
    ensures
        ({
            let fault = removal_fault(
                preflight_provider,
                provider,
                version_tokens,
                resolved,
                playlist_uri,
                requested,
                current,
            );
            &&& fault is None <==> provider == preflight_provider && (resolved.version_token is Some
                || !version_tokens) && removal(requested, current) is Ok
            &&& provider != preflight_provider ==> fault == Some(
                FailureModel::Provider(
                    ProviderErrorModel::InvalidInput {
                        field: "provider"@,
                        message: "playlist provider changed during removal preflight"@,
                    },
                ),
            )
        }),
{
}

/// A cover that decodes is passed on byte for byte; one that does not is
/// refused with what is malformed.
pub proof fn decoded_covers_are_passed_on(decoded: Result<Seq<u8>, Seq<char>>)
    ensures
        match decoded {
            Ok(bytes) => image_outcome(decoded) == Ok::<Seq<u8>, FailureModel>(bytes),
            Err(message) => image_outcome(decoded) == Err::<Seq<u8>, FailureModel>(
                FailureModel::Provider(
                    ProviderErrorModel::InvalidInput {
                        field: "image_base64"@,
                        message: "malformed base64: "@ + message,
                    },
                ),
            ),
        },
{
}

/// Items that were added need nothing more. A failure of which it is open what
/// happened keeps the playlist and names it; one that left some items there is
/// passed on.
pub proof fn uncertain_additions_keep_the_playlist(uri: UriModel, outcome: AddOutcome)
    ensures
        ({
            let step = populate_decision(uri, outcome);
            match outcome {
                AddOutcome::Applied => step is Done,
                AddOutcome::TimedOut => step is Keep && step->message == "playlist `"@ + uri.text()
                    + "` was created, but adding items timed out; remote outcome is indeterminate — inspect the playlist before retrying"@,
                AddOutcome::Failed { kind, error } => match kind {
                    AddFailure::Indeterminate => step is Keep && step->message == "playlist `"@
                        + uri.text()
                        + "` was created, but adding items had an indeterminate outcome: "@ + error@
                        + "; inspect the playlist before retrying"@,
                    AddFailure::Partial => step is PassOn,
                    AddFailure::Definite => step is RollBack,
                },
            }
        }),
{
}

/// A creation that failed half way is told to be undone exactly when it was;
/// otherwise the playlist is told to remain, or maybe to remain where nobody
/// knows, and what failed is told either way.
pub proof fn leftovers_are_told(
    uri: UriModel,
    step: Seq<char>,
    cause: Seq<char>,
    rollback: RollbackOutcome,
)
    ensures
        failed_creation(uri, step, cause, rollback) is RolledBack <==> rollback is Undone,
        failed_population(uri, cause, rollback) is RolledBack <==> rollback is Undone,
        match rollback {
            RollbackOutcome::Undone => failed_creation(uri, step, cause, rollback)->RolledBack_message
                == "playlist creation was rolled back after "@ + step + " failed: "@ + cause
                && failed_population(uri, cause, rollback)->RolledBack_message
                == "playlist creation was rolled back because adding items failed: "@ + cause,
            RollbackOutcome::Failed { error } => failed_creation(
                uri,
                step,
                cause,
                rollback,
            )->Retained_message == "playlist `"@ + uri.text() + "` remains: "@ + step + " failed ("@
                + cause + ") and rollback failed ("@ + error@
                + "); delete it manually before retrying"@ && failed_population(
                uri,
                cause,
                rollback,
            )->Retained_message == "playlist `"@ + uri.text()
                + "` remains empty: adding items failed ("@ + cause + ") and rollback failed ("@
                + error@ + "); delete it manually before retrying"@,
            RollbackOutcome::TimedOut => failed_creation(
                uri,
                step,
                cause,
                rollback,
            )->Retained_message == "playlist `"@ + uri.text() + "` may remain: "@ + step
                + " failed ("@ + cause
                + ") and rollback timed out; inspect/delete it manually before retrying"@
                && failed_population(uri, cause, rollback)->Retained_message == "playlist `"@
                + uri.text() + "` may remain empty: adding items failed ("@ + cause
                + ") and rollback timed out; inspect/delete it manually before retrying"@,
        },
{
}

/// Removals, covers and creations that fail half way are planned as is told of
/// them.
pub proof fn plan_calls_answer_as_told()
    ensures
        forall|
            requested: &[ResourceUri],
            current: &[MediaItem],
            answer: Result<(Vec<PlaylistItemRef>, Vec<RemovedItem>), Failure>,
        |
            #[trigger] call_ensures(
                select_playlist_remove_items,
                (requested, current),
                answer,
            ) ==> {
                &&& match answer {
                    Ok((refs, removed)) => removal(seq_view(requested@), seq_view(current@)) matches Ok(
                        selection,
                    ) && seq_view(refs@) == refs_of(selection) && seq_view(removed@) == removed_of(
                        selection,
                    ),
                    Err(error) => removal(seq_view(requested@), seq_view(current@)) == Err::<
                        Seq<(UriModel, int)>,
                        FailureModel,
                    >(error@),
                }
            },
        forall|decoded: Result<Vec<u8>, String>, answer: Result<Vec<u8>, Failure>|
            #[trigger] call_ensures(decoded_image, (decoded,), answer) ==> {
                &&& image_view(answer) == image_outcome(decoded_view(decoded))
            },
        forall|uri: &ResourceUri, outcome: &AddOutcome, answer: PopulateStep|
            #[trigger] call_ensures(populate_created_playlist, (uri, outcome), answer) ==> {
                &&& answer@ == populate_decision(uri@, *outcome)
            },
        forall|
            uri: &ResourceUri,
            add_error: &str,
            rollback: &RollbackOutcome,
            answer: CreationFailure,
        |
            #[trigger] call_ensures(rollback_population, (uri, add_error, rollback), answer) ==> {
                &&& answer@ == failed_population(uri@, add_error@, *rollback)
            },
        forall|
            uri: &ResourceUri,
            failed_step: &str,
            cause: &str,
            rollback: &RollbackOutcome,
            answer: CreationFailure,
        |
            #[trigger] call_ensures(
                rollback_created_playlist,
                (uri, failed_step, cause, rollback),
                answer,
            ) ==> {
                &&& answer@ == failed_creation(uri@, failed_step@, cause@, *rollback)
            },
{
}

/// A plan of a removal that was built and carried out is undone by the plan
/// that is answered for it: the playlist is then what it was. As many
/// references go to the provider as resources were named.
pub proof fn built_removals_are_undone_by_their_answer(
    preflight_provider: &ProviderId,
    provider: ProviderId,
    version_tokens: bool,
    resolved: Playlist,
    playlist_uri: ResourceUri,
    requested: &[ResourceUri],
    current: &[MediaItem],
    plan: PlaylistRemovePlan,
    post_version: Option<String>,
    answer: ReversalPlan,
)
    requires
        call_ensures(
            build_playlist_remove_plan,
            (
                preflight_provider,
                provider,
                version_tokens,
                resolved,
                playlist_uri,
                requested,
                current,
            ),
            Ok(plan),
        ),
        call_ensures(removal_reversal, (&plan, true, post_version), Ok(answer)),
    ensures
        ({
            let uris = item_uris(seq_view(current@));
            let taken = seq_view(plan.removed_items@);
            &&& undone_list(resolved@.id, left_behind(uris, taken), answer@) == uris
            &&& plan.mutation_items@.len() == requested@.len()
            &&& plan.removed_items@.len() == requested@.len()
            &&& plan.provider@ == preflight_provider@ && plan.playlist_uri@ == playlist_uri@
        }),
{
    let named = seq_view(requested@);
    let held = seq_view(current@);
    let uris = item_uris(held);
    let selection = removal(named, held)->Ok_0;
    let taken = removed_of(selection);
    let removed = seq_view(plan.removed_items@);
    removals_can_be_undone(named, held, removed);
    selections_are_exact(named, held);
    assert(plan.mutation_items@.len() == seq_view(plan.mutation_items@).len());
    assert(plan.removed_items@.len() == removed.len());
    assert forall|i: int| 0 <= i < uris.len() implies (#[trigger] is_taken(taken, i) <==> is_taken(
        removed,
        i,
    )) by {
        removed.to_multiset_ensures();
        taken.to_multiset_ensures();
        if is_taken(taken, i) {
            let k = choose|k: int| 0 <= k < taken.len() && (#[trigger] taken[k]).position == i;
            assert(taken.contains(taken[k]));
            assert(removed.to_multiset().count(taken[k]) > 0);
            assert(removed.contains(taken[k]));
            let m = removed.index_of(taken[k]);
            assert(removed[m].position == i);
        }
        if is_taken(removed, i) {
            let k = choose|k: int| 0 <= k < removed.len() && (#[trigger] removed[k]).position == i;
            assert(removed.contains(removed[k]));
            assert(taken.to_multiset().count(removed[k]) > 0);
            assert(taken.contains(removed[k]));
            let m = taken.index_of(removed[k]);
            assert(taken[m].position == i);
        }
    }
    lemma_left_behind_agrees(uris, taken, removed);
}

/// The plans that are answered for an addition, a creation, a save and an
/// unsave undo just these.
pub proof fn answered_plans_undo_what_was_done(
    id: &str,
    added: &[String],
    version: Option<String>,
    uri: &str,
    addition: ReversalPlan,
    created: ReversalPlan,
    save: ReversalPlan,
    unsave: ReversalPlan,
    before: Seq<Seq<char>>,
    ids: Set<Seq<char>>,
    saved: Set<Seq<char>>,
)
    requires
        call_ensures(addition_reversal, (id, added, version), addition),
        call_ensures(creation_reversal, (id,), created),
        call_ensures(save_reversal, (uri,), save),
        call_ensures(unsave_reversal, (uri,), unsave),
        forall|i: int| 0 <= i < added@.len() ==> !before.contains((#[trigger] added@[i])@),
        !ids.contains(id@),
    ensures
        undone_list(id@, before + texts(added@), addition@) == before,
        undone_playlists(ids.insert(id@), created@) == ids,
        !saved.contains(uri@) ==> undone_library(saved.insert(uri@), save@) == saved,
        saved.contains(uri@) ==> undone_library(saved.remove(uri@), unsave@) == saved,
{
    assert forall|i: int| 0 <= i < texts(added@).len() implies !before.contains(
        #[trigger] texts(added@)[i],
    ) by {
        assert(texts(added@)[i] == added@[i]@);
    }
    additions_can_be_undone(id@, before, texts(added@), opt_text(version));
    creations_and_saves_can_be_undone(ids, id@, saved, uri@);
}

} // verus!
