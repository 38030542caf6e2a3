//! What a music provider is to the rest of the library: its identity, what it
//! can do, what is asked of it and how it fails.

use vstd::prelude::*;
use vstd::string::*;

use crate::media::MediaKind;
use crate::text::{
    chars_of, concat2, concat3, concat4, concat5, decimal, find_char, first_at, from_range,
    lemma_first_at, lemma_first_at_bounds, lemma_seq_view_push, lemma_texts_push,
    lemma_trimmed_fixed, opt_text, opt_view, same_text, seq_view, trim_text, trimmed, u64_text,
};
use crate::theme::ThemeSpec;
use crate::uri::{
    ResourceUri, UriModel, UriScheme, canonical_text_parses_back, is_id_char, is_scheme,
    is_scheme_char, parsed_text_is_canonical, parsed_uri, scheme_is_valid,
};

verus! {

broadcast use {lemma_seq_view_push, lemma_texts_push};

// ---------------------------------------------------------------------------
// Identity
// ---------------------------------------------------------------------------

/// The identity of a provider in the registry. It follows the grammar of
/// schemes, but names an adapter and not a namespace.
#[derive(Debug, PartialEq, Eq, Hash, PartialOrd, Ord)]
pub struct ProviderId {
    value: String,
}

impl View for ProviderId {
    type V = Seq<char>;

    closed spec fn view(&self) -> Seq<char> {
        self.value@
    }
}

impl Clone for ProviderId {
    fn clone(&self) -> (r: Self)
        ensures
            r@ == self@,
    {
        proof {
            use_type_invariant(self);
        }
        ProviderId { value: self.value.clone() }
    }
}

impl ProviderId {
    #[verifier::type_invariant]
    spec fn valid(&self) -> bool {
        is_scheme(self.value@)
    }

    /// The id of that text, where it is lowercase and safe in a
    /// configuration.
    pub fn new(value: &str) -> (r: Result<Self, ProviderIdError>)
        ensures
            match r {
                Ok(id) => is_scheme(value@) && id@ == value@,
                Err(error) => !is_scheme(value@) && error.value@ == value@,
            },
    {
        if scheme_is_valid(value) {
            Ok(ProviderId { value: value.to_owned() })
        } else {
            Err(ProviderIdError { value: value.to_owned() })
        }
    }

    /// The id that is named like a scheme; both follow one grammar.
    pub fn of_scheme(scheme: &UriScheme) -> (r: Self)
        ensures
            r@ == scheme@,
    {
        ProviderId { value: scheme.label().to_owned() }
    }

    pub fn as_str(&self) -> (r: &str)
        ensures
            r@ == self@,
            is_scheme(self@),
    {
        proof {
            use_type_invariant(self);
        }
        self.value.as_str()
    }

    /// Whether two ids name one provider.
    pub fn same(&self, other: &ProviderId) -> (r: bool)
        ensures
            r == (self@ == other@),
    {
        same_text(self.value.as_str(), other.value.as_str())
    }
}

impl std::str::FromStr for ProviderId {
    type Err = ProviderIdError;

    fn from_str(value: &str) -> (r: Result<Self, Self::Err>)
        ensures
            match r {
                Ok(id) => is_scheme(value@) && id@ == value@,
                Err(error) => !is_scheme(value@) && error.value@ == value@,
            },
    {
        ProviderId::new(value)
    }
}

/// A text that is no provider id.
#[derive(Clone, Debug, PartialEq, Eq)]
pub struct ProviderIdError {
    pub value: String,
}

impl ProviderIdError {
    pub fn message(&self) -> (r: String)
        ensures
            r@ == "invalid provider id `"@ + self.value@
                + "`; expected lowercase ASCII letters, digits, or hyphens"@,
    {
        concat3(
            "invalid provider id `",
            self.value.as_str(),
            "`; expected lowercase ASCII letters, digits, or hyphens",
        )
    }
}

// ---------------------------------------------------------------------------
// Capabilities
// ---------------------------------------------------------------------------

/// Whether a kind is in a list.
pub fn kind_in(kinds: &[MediaKind], kind: &MediaKind) -> (r: bool)
    ensures
        r == kinds@.contains(*kind),
{
    let mut i: usize = 0;
    while i < kinds.len()
        invariant
            i <= kinds@.len(),
            forall|k: int| 0 <= k < i ==> kinds@[k] != *kind,
        decreases kinds@.len() - i,
    {
        if kinds[i] == *kind {
            return true;
        }
        i = i + 1;
    }
    false
}

/// What a provider can search.
#[derive(Clone, Debug, Default, PartialEq, Eq)]
pub struct SearchCaps {
    pub remote: bool,
    pub kinds: Vec<MediaKind>,
    pub max_page_size: Option<usize>,
    pub max_query_chars: Option<usize>,
}

/// What a provider can read of its catalog outside search.
#[derive(Clone, Debug, Default, PartialEq, Eq)]
pub struct CatalogCaps {
    pub lookup_kinds: Vec<MediaKind>,
    pub recently_played: bool,
    pub recently_played_max_page_size: Option<usize>,
    pub album_tracks: bool,
    pub album_tracks_max_page_size: Option<usize>,
    pub artist_albums: bool,
    pub artist_albums_max_page_size: Option<usize>,
    pub show_episodes: bool,
    pub show_episodes_max_page_size: Option<usize>,
}

/// What a provider can do with the user's library.
#[derive(Clone, Debug, Default, PartialEq, Eq)]
pub struct LibraryCaps {
    pub read_kinds: Vec<MediaKind>,
    pub save_kinds: Vec<MediaKind>,
    pub follow_kinds: Vec<MediaKind>,
    pub mutation_max_batch: Option<usize>,
    pub max_page_size: Option<usize>,
    pub freshness_probe: bool,
}

impl LibraryCaps {
    pub fn can_read(&self, kind: &MediaKind) -> (r: bool)
        ensures
            r == self.read_kinds@.contains(*kind),
    {
        kind_in(self.read_kinds.as_slice(), kind)
    }

    pub fn can_save(&self, kind: &MediaKind) -> (r: bool)
        ensures
            r == self.save_kinds@.contains(*kind),
    {
        kind_in(self.save_kinds.as_slice(), kind)
    }

    pub fn can_follow(&self, kind: &MediaKind) -> (r: bool)
        ensures
            r == self.follow_kinds@.contains(*kind),
    {
        kind_in(self.follow_kinds.as_slice(), kind)
    }
}

/// What a provider can do with playlists.
#[derive(Clone, Debug, Default, PartialEq, Eq)]
pub struct PlaylistCaps {
    pub list: bool,
    pub item_read: bool,
    pub create: bool,
    pub add: bool,
    pub remove: bool,
    pub reorder: bool,
    pub image: bool,
    pub unfollow: bool,
    pub version_tokens: bool,
    pub list_max_page_size: Option<usize>,
    pub items_max_page_size: Option<usize>,
    pub add_max_batch: Option<usize>,
    pub remove_max_batch: Option<usize>,
}

/// How a provider can control remote playback. `queue_snapshots_complete`
/// says that a queue read shows the whole upcoming queue.
#[derive(Clone, Debug, Default, PartialEq, Eq)]
pub struct TransportCaps {
    pub playback_state: bool,
    pub play: bool,
    pub pause: bool,
    pub resume: bool,
    pub next: bool,
    pub previous: bool,
    pub seek: bool,
    pub volume: bool,
    pub shuffle: bool,
    pub repeat: bool,
    pub queue_read: bool,
    pub queue_snapshots_complete: bool,
    pub queue_add: bool,
    pub devices: bool,
    pub transfer: bool,
}

/// What a provider offers beyond the common surface.
#[derive(Clone, Debug, Default, PartialEq, Eq)]
pub struct ProviderExtrasCaps {
    pub native_lyrics: bool,
    pub related_artists: bool,
    pub radio: bool,
}

/// What a provider can do.
#[derive(Clone, Debug, Default, PartialEq, Eq)]
pub struct ProviderCaps {
    pub search: SearchCaps,
    pub catalog: CatalogCaps,
    pub library: LibraryCaps,
    pub playlists: PlaylistCaps,
    pub transport: Option<TransportCaps>,
    pub extras: ProviderExtrasCaps,
}

// ---------------------------------------------------------------------------
// The catalog of providers
// ---------------------------------------------------------------------------

/// A provider as clients see it.
#[derive(Clone, Debug, PartialEq, Eq)]
pub struct ProviderDescriptor {
    pub id: ProviderId,
    pub uri_scheme: UriScheme,
    pub display_name: String,
    pub capabilities: ProviderCaps,
    pub is_default: bool,
}

/// What routing reads of a descriptor.
pub struct DescriptorModel {
    pub id: Seq<char>,
    pub scheme: Seq<char>,
    pub is_default: bool,
}

impl View for ProviderDescriptor {
    type V = DescriptorModel;

    open spec fn view(&self) -> DescriptorModel {
        DescriptorModel { id: self.id@, scheme: self.uri_scheme@, is_default: self.is_default }
    }
}

/// The providers of a running daemon. Without any provider there is no
/// default.
#[derive(Clone, Debug, Default, PartialEq, Eq)]
pub struct ProviderCatalog {
    pub default_provider: Option<ProviderId>,
    pub providers: Vec<ProviderDescriptor>,
}

/// The first clash of ids or schemes in a list of providers, in words.
pub open spec fn first_clash(providers: Seq<DescriptorModel>) -> Option<Seq<char>>
    decreases providers.len(),
{
    if providers.len() == 0 {
        None
    } else {
        let before = providers.drop_last();
        let last = providers.last();
        if first_clash(before) is Some {
            first_clash(before)
        } else if exists|i: int| 0 <= i < before.len() && (#[trigger] before[i]).id == last.id {
            Some("provider catalog contains duplicate id `"@ + last.id + "`"@)
        } else if exists|i: int|
            0 <= i < before.len() && (#[trigger] before[i]).scheme == last.scheme {
            Some("provider catalog contains duplicate URI scheme `"@ + last.scheme + "`"@)
        } else {
            None
        }
    }
}

/// The providers that are marked as the default.
pub open spec fn marked(providers: Seq<DescriptorModel>) -> Seq<DescriptorModel> {
    providers.filter(|p: DescriptorModel| p.is_default)
}

/// What is wrong with a catalog, if anything: a clash, or a default that the
/// marks do not agree with.
pub open spec fn catalog_fault(
    default_provider: Option<Seq<char>>,
    providers: Seq<DescriptorModel>,
) -> Option<Seq<char>> {
    if first_clash(providers) is Some {
        first_clash(providers)
    } else {
        match default_provider {
            None => if marked(providers).len() == 0 {
                None
            } else {
                Some("provider catalog marks a default without default_provider"@)
            },
            Some(default) => if marked(providers).len() == 1 && marked(providers)[0].id
                == default {
                None
            } else {
                Some(
                    "provider catalog default `"@ + default
                        + "` must identify exactly one marked provider"@,
                )
            },
        }
    }
}

fn id_among(providers: &[ProviderDescriptor], upto: usize, id: &ProviderId) -> (r: bool)
    requires
        upto <= providers@.len(),
    ensures
        r == (exists|i: int|
            0 <= i < upto && (#[trigger] seq_view(providers@).take(upto as int)[i]).id == id@),
{
    let mut i: usize = 0;
    while i < upto
        invariant
            i <= upto <= providers@.len(),
            forall|k: int|
                0 <= k < i ==> (#[trigger] seq_view(providers@).take(upto as int)[k]).id != id@,
        decreases upto - i,
    {
        if providers[i].id.same(id) {
            assert(seq_view(providers@).take(upto as int)[i as int].id == id@);
            return true;
        }
        i = i + 1;
    }
    false
}

fn scheme_among(providers: &[ProviderDescriptor], upto: usize, scheme: &UriScheme) -> (r: bool)
    requires
        upto <= providers@.len(),
    ensures
        r == (exists|i: int|
            0 <= i < upto && (#[trigger] seq_view(providers@).take(upto as int)[i]).scheme
                == scheme@),
{
    let mut i: usize = 0;
    while i < upto
        invariant
            i <= upto <= providers@.len(),
            forall|k: int|
                0 <= k < i ==> (#[trigger] seq_view(providers@).take(upto as int)[k]).scheme
                    != scheme@,
        decreases upto - i,
    {
        if providers[i].uri_scheme.same(scheme) {
            assert(seq_view(providers@).take(upto as int)[i as int].scheme == scheme@);
            return true;
        }
        i = i + 1;
    }
    false
}

proof fn lemma_clash_persists(providers: Seq<DescriptorModel>, n: int)
    requires
        0 <= n <= providers.len(),
        first_clash(providers.take(n)) is Some,
    ensures
        first_clash(providers) == first_clash(providers.take(n)),
    decreases providers.len() - n,
{
    if n < providers.len() {
        assert(providers.take(n + 1).drop_last() =~= providers.take(n));
        lemma_clash_persists(providers, n + 1);
    } else {
        assert(providers.take(n) =~= providers);
    }
}

impl ProviderCatalog {
    /// Checks that no two providers share an id or a scheme, and that the
    /// default and its mark agree.
    pub fn validate(&self) -> (r: Result<(), String>)
        ensures
            match r {
                Ok(_) => catalog_fault(
                    opt_view(self.default_provider),
                    seq_view(self.providers@),
                ) is None,
                Err(message) => catalog_fault(
                    opt_view(self.default_provider),
                    seq_view(self.providers@),
                ) == Some(message@),
            },
    {
        let ghost models = seq_view(self.providers@);
        let ghost is_marked = |p: DescriptorModel| p.is_default;
        let mut marks: usize = 0;
        let mut marked_at: usize = 0;
        let mut i: usize = 0;
        assert(models.take(0) =~= Seq::<DescriptorModel>::empty());
        proof {
            reveal(Seq::filter);
        }
        while i < self.providers.len()
            invariant
                i <= self.providers@.len(),
                models == seq_view(self.providers@),
                is_marked == (|p: DescriptorModel| p.is_default),
                first_clash(models.take(i as int)) is None,
                marks <= i,
                marks == models.take(i as int).filter(is_marked).len(),
                marks > 0 ==> marked_at < i,
                marks == 1 ==> models.take(i as int).filter(is_marked)[0]
                    == models[marked_at as int],
            decreases self.providers@.len() - i,
        {
            let provider = &self.providers[i];
            proof {
                reveal(Seq::filter);
                assert(models.take(i as int + 1).drop_last() =~= models.take(i as int));
                assert(models.take(i as int + 1).last() == provider@);
            }
            if id_among(self.providers.as_slice(), i, &provider.id) {
                proof {
                    lemma_clash_persists(models, i as int + 1);
                }
                return Err(
                    concat3(
                        "provider catalog contains duplicate id `",
                        provider.id.as_str(),
                        "`",
                    ),
                );
            }
            if scheme_among(self.providers.as_slice(), i, &provider.uri_scheme) {
                proof {
                    lemma_clash_persists(models, i as int + 1);
                }
                return Err(
                    concat3(
                        "provider catalog contains duplicate URI scheme `",
                        provider.uri_scheme.label(),
                        "`",
                    ),
                );
            }
            if provider.is_default {
                marks = marks + 1;
                marked_at = i;
            }
            i = i + 1;
        }
        assert(models.take(models.len() as int) =~= models);
        match &self.default_provider {
            None => {
                if marks == 0 {
                    Ok(())
                } else {
                    Err("provider catalog marks a default without default_provider".to_owned())
                }
            },
            Some(default) => {
                if marks == 1 && self.providers[marked_at].id.same(default) {
                    Ok(())
                } else {
                    Err(
                        concat3(
                            "provider catalog default `",
                            default.as_str(),
                            "` must identify exactly one marked provider",
                        ),
                    )
                }
            },
        }
    }
}

proof fn lemma_no_clash(providers: Seq<DescriptorModel>)
    requires
        first_clash(providers) is None,
    ensures
        forall|i: int, j: int|
            0 <= i < j < providers.len() ==> providers[i].id != providers[j].id
                && providers[i].scheme != providers[j].scheme,
    decreases providers.len(),
{
    if providers.len() > 0 {
        let before = providers.drop_last();
        lemma_no_clash(before);
        assert forall|i: int, j: int| 0 <= i < j < providers.len() implies providers[i].id
            != providers[j].id && providers[i].scheme != providers[j].scheme by {
            assert(before[i] == providers[i]);
            if j < before.len() {
                assert(before[j] == providers[j]);
            }
        }
    }
}

proof fn lemma_marked_members(providers: Seq<DescriptorModel>)
    ensures
        forall|i: int|
            0 <= i < providers.len() && (#[trigger] providers[i]).is_default ==> marked(
                providers,
            ).contains(providers[i]),
        marked(providers).len() <= providers.len(),
        forall|i: int|
            0 <= i < marked(providers).len() ==> (#[trigger] marked(providers)[i]).is_default
                && providers.contains(marked(providers)[i]),
    decreases providers.len(),
{
    reveal(Seq::filter);
    if providers.len() > 0 {
        let before = providers.drop_last();
        lemma_marked_members(before);
        let sub = marked(before);
        let all = marked(providers);
        assert forall|i: int| 0 <= i < providers.len() && (#[trigger] providers[i]).is_default
            implies all.contains(providers[i]) by {
            if i < before.len() {
                assert(before[i] == providers[i]);
                let k = choose|k: int| 0 <= k < sub.len() && sub[k] == before[i];
                assert(all[k] == providers[i]);
            } else {
                assert(all[all.len() - 1] == providers[i]);
            }
        }
        assert forall|i: int| 0 <= i < all.len() implies (#[trigger] all[i]).is_default
            && providers.contains(all[i]) by {
            if i < sub.len() {
                assert(all[i] == sub[i]);
                let k = choose|k: int| 0 <= k < before.len() && before[k] == sub[i];
                assert(providers[k] == all[i]);
            } else {
                assert(providers[providers.len() - 1] == all[i]);
            }
        }
    }
}

/// In a valid catalog an id and a scheme each belong to one provider, and the
/// default, if there is one, is the one provider that is marked so.
pub proof fn valid_catalogs_are_unambiguous(
    default_provider: Option<Seq<char>>,
    providers: Seq<DescriptorModel>,
)
    requires
        catalog_fault(default_provider, providers) is None,
    ensures
        forall|i: int, j: int|
            0 <= i < j < providers.len() ==> providers[i].id != providers[j].id
                && providers[i].scheme != providers[j].scheme,
        forall|i: int|
            0 <= i < providers.len() ==> ((#[trigger] providers[i]).is_default
                <==> default_provider == Some(providers[i].id)),
        default_provider is Some ==> exists|i: int|
            0 <= i < providers.len() && (#[trigger] providers[i]).id == default_provider->0,
{
    lemma_no_clash(providers);
    lemma_marked_members(providers);
    let marks = marked(providers);
    if default_provider is Some {
        let d = marks[0];
        let k = choose|k: int| 0 <= k < providers.len() && providers[k] == d;
        assert forall|i: int| 0 <= i < providers.len() implies ((#[trigger] providers[i]).is_default
            <==> default_provider == Some(providers[i].id)) by {
            if providers[i].is_default {
                let m = choose|m: int| 0 <= m < marks.len() && marks[m] == providers[i];
                assert(m == 0);
            }
            if default_provider == Some(providers[i].id) {
                assert(i == k) by {
                    if i < k {
                        assert(providers[i].id != providers[k].id);
                    } else if k < i {
                        assert(providers[k].id != providers[i].id);
                    }
                }
            }
        }
    } else {
        assert forall|i: int| 0 <= i < providers.len() implies !(
        #[trigger] providers[i]).is_default by {
            if providers[i].is_default {
                assert(marks.contains(providers[i]));
            }
        }
    }
}

/// What a client shows by default.
#[derive(Clone, Debug, Default, PartialEq, Eq)]
pub struct ClientPreferences {
    pub viz_color_scheme: Option<String>,
    pub viz_style: Option<String>,
    pub theme: Option<ThemeSpec>,
}

// ---------------------------------------------------------------------------
// Claiming input
// ---------------------------------------------------------------------------

/// An input that a provider made a resource of.
#[derive(Clone, Debug, PartialEq, Eq)]
pub struct ResolvedTarget {
    pub provider: ProviderId,
    pub uri: ResourceUri,
}

/// Whether an input is a provider's: it belongs elsewhere, it names a
/// resource, or it is a malformed one of the provider's own namespace.
#[derive(Clone, Debug, PartialEq, Eq)]
pub enum TargetClaim {
    NotMine,
    Resolved(ResourceUri),
    Invalid { message: String },
}

/// A claim as plain values.
pub enum TargetClaimModel {
    NotMine,
    Resolved(UriModel),
    Invalid { message: Seq<char> },
}

impl View for TargetClaim {
    type V = TargetClaimModel;

    open spec fn view(&self) -> TargetClaimModel {
        match *self {
            TargetClaim::NotMine => TargetClaimModel::NotMine,
            TargetClaim::Resolved(uri) => TargetClaimModel::Resolved(uri@),
            TargetClaim::Invalid { message } => TargetClaimModel::Invalid { message: message@ },
        }
    }
}

/// What a provider with that scheme makes of an input.
pub open spec fn target_claim(scheme: Seq<char>, input: Seq<char>) -> TargetClaimModel {
    let text = trimmed(input);
    match parsed_uri(text) {
        Ok(uri) => if uri.scheme == scheme {
            TargetClaimModel::Resolved(uri)
        } else {
            TargetClaimModel::NotMine
        },
        Err(error) => if first_at(text, ':') < text.len() && text.take(first_at(text, ':'))
            == scheme {
            TargetClaimModel::Invalid { message: error.sentence() }
        } else {
            TargetClaimModel::NotMine
        },
    }
}

/// What a provider with that scheme makes of an input: canonical identifiers
/// of its own namespace are resolved, everything else in it is invalid.
pub fn claim_target(scheme: &UriScheme, input: &str) -> (r: TargetClaim)
    ensures
        r@ == target_claim(scheme@, input@),
{
    let text = trim_text(input);
    match ResourceUri::parse(text.as_str()) {
        Ok(resource) => {
            if resource.scheme().same(scheme) {
                TargetClaim::Resolved(resource)
            } else {
                TargetClaim::NotMine
            }
        },
        Err(error) => {
            let v = chars_of(text.as_str());
            let colon: usize = find_char(v.as_slice(), ':', 0);
            assert(v@.skip(0) =~= v@);
            if colon < v.len() {
                let prefix = from_range(v.as_slice(), 0, colon);
                assert(prefix@ =~= text@.take(colon as int));
                if same_text(prefix.as_str(), scheme.label()) {
                    return TargetClaim::Invalid { message: error.message() };
                }
            }
            TargetClaim::NotMine
        },
    }
}

/// At most one of two providers with different schemes claims an input.
pub proof fn claims_never_overlap(a: Seq<char>, b: Seq<char>, input: Seq<char>)
    requires
        a != b,
    ensures
        target_claim(a, input) is NotMine || target_claim(b, input) is NotMine,
{
}

/// A provider claims the canonical text of every resource in its namespace.
pub proof fn own_resources_are_claimed(uri: UriModel)
    requires
        uri.valid(),
    ensures
        target_claim(uri.scheme, uri.text()) == TargetClaimModel::Resolved(uri),
{
    let text = uri.text();
    assert(text[0] == uri.scheme[0]);
    assert(text.last() == uri.id.last());
    assert(is_id_char(uri.id.last()));
    lemma_trimmed_fixed(text);
    canonical_text_parses_back(uri);
}

// ---------------------------------------------------------------------------
// Errors
// ---------------------------------------------------------------------------

/// How a provider fails. Lengths of time are in milliseconds.
#[derive(Clone, Debug, PartialEq, Eq)]
pub enum ProviderError {
    Unsupported { operation: String },
    RateLimited { scope: Option<String>, retry_after_ms: Option<u64> },
    AuthRequired,
    AuthExpired,
    AuthRevoked,
    Forbidden { operation: String },
    NoActiveDevice,
    InvalidInput { field: String, message: String },
    Network(String),
    Transient { status: Option<u16>, message: String },
    Upstream { status: u16, message: String },
    Decode(String),
    NotFound { resource: String },
    SyncTokenExpired { reason: String },
    VersionConflict { expected: Option<String>, actual: Option<String> },
    Provider(String),
}

/// A provider error as plain values.
pub enum ProviderErrorModel {
    Unsupported { operation: Seq<char> },
    RateLimited { scope: Option<Seq<char>>, retry_after_ms: Option<u64> },
    AuthRequired,
    AuthExpired,
    AuthRevoked,
    Forbidden { operation: Seq<char> },
    NoActiveDevice,
    InvalidInput { field: Seq<char>, message: Seq<char> },
    Network(Seq<char>),
    Transient { status: Option<u16>, message: Seq<char> },
    Upstream { status: u16, message: Seq<char> },
    Decode(Seq<char>),
    NotFound { resource: Seq<char> },
    SyncTokenExpired { reason: Seq<char> },
    VersionConflict { expected: Option<Seq<char>>, actual: Option<Seq<char>> },
    Provider(Seq<char>),
}

impl View for ProviderError {
    type V = ProviderErrorModel;

    open spec fn view(&self) -> ProviderErrorModel {
        match *self {
            ProviderError::Unsupported { operation } => ProviderErrorModel::Unsupported {
                operation: operation@,
            },
            ProviderError::RateLimited { scope, retry_after_ms }
                => ProviderErrorModel::RateLimited { scope: opt_text(scope), retry_after_ms },
            ProviderError::AuthRequired => ProviderErrorModel::AuthRequired,
            ProviderError::AuthExpired => ProviderErrorModel::AuthExpired,
            ProviderError::AuthRevoked => ProviderErrorModel::AuthRevoked,
            ProviderError::Forbidden { operation } => ProviderErrorModel::Forbidden {
                operation: operation@,
            },
            ProviderError::NoActiveDevice => ProviderErrorModel::NoActiveDevice,
            ProviderError::InvalidInput { field, message } => ProviderErrorModel::InvalidInput {
                field: field@,
                message: message@,
            },
            ProviderError::Network(message) => ProviderErrorModel::Network(message@),
            ProviderError::Transient { status, message } => ProviderErrorModel::Transient {
                status,
                message: message@,
            },
            ProviderError::Upstream { status, message } => ProviderErrorModel::Upstream {
                status,
                message: message@,
            },
            ProviderError::Decode(message) => ProviderErrorModel::Decode(message@),
            ProviderError::NotFound { resource } => ProviderErrorModel::NotFound {
                resource: resource@,
            },
            ProviderError::SyncTokenExpired { reason } => ProviderErrorModel::SyncTokenExpired {
                reason: reason@,
            },
            ProviderError::VersionConflict { expected, actual }
                => ProviderErrorModel::VersionConflict {
                expected: opt_text(expected),
                actual: opt_text(actual),
            },
            ProviderError::Provider(message) => ProviderErrorModel::Provider(message@),
        }
    }
}

/// An outcome of a provider call.
pub type ProviderResult<T> = Result<T, ProviderError>;

/// Whether a status is a server error.
pub open spec fn is_server_error(status: u16) -> bool {
    500 <= status <= 599
}

impl ProviderErrorModel {
    /// Whether trying again later can help without the user.
    pub open spec fn retryable(self) -> bool {
        match self {
            ProviderErrorModel::RateLimited { .. } => true,
            ProviderErrorModel::Network(_) => true,
            ProviderErrorModel::Transient { .. } => true,
            ProviderErrorModel::AuthExpired => true,
            ProviderErrorModel::Upstream { status, .. } => is_server_error(status),
            _ => false,
        }
    }

    /// Whether the user has to authenticate again.
    pub open spec fn needs_auth(self) -> bool {
        self is AuthRequired || self is AuthExpired || self is AuthRevoked
    }

    /// Whether it is open what the request did on the other side.
    pub open spec fn indeterminate(self) -> bool {
        match self {
            ProviderErrorModel::Network(_) => true,
            ProviderErrorModel::Transient { .. } => true,
            ProviderErrorModel::Upstream { status, .. } => is_server_error(status),
            _ => false,
        }
    }

    /// Whether a cached answer may stand in for the failed request.
    pub open spec fn cache_may_answer(self) -> bool {
        self is RateLimited || self.indeterminate()
    }

    /// The sentence that an error is shown as.
    pub open spec fn sentence(self) -> Seq<char> {
        match self {
            ProviderErrorModel::Unsupported { operation } => "provider operation `"@ + operation
                + "` is unsupported"@,
            ProviderErrorModel::RateLimited { .. } => "provider rate limited the request"@,
            ProviderErrorModel::AuthRequired => "provider authentication is required"@,
            ProviderErrorModel::AuthExpired => "provider authentication has expired"@,
            ProviderErrorModel::AuthRevoked => "provider authentication was revoked"@,
            ProviderErrorModel::Forbidden { operation } => "provider denied `"@ + operation
                + "`"@,
            ProviderErrorModel::NoActiveDevice => "provider has no active playback device"@,
            ProviderErrorModel::InvalidInput { field, message } => "invalid provider input `"@
                + field + "`: "@ + message,
            ProviderErrorModel::Network(message) => "provider network error: "@ + message,
            ProviderErrorModel::Transient { status, message }
                => "provider transient error (status "@ + debug_status(status) + "): "@ + message,
            ProviderErrorModel::Upstream { status, message }
                => "provider upstream error (HTTP "@ + decimal(status as nat) + "): "@ + message,
            ProviderErrorModel::Decode(message) => "provider response decode error: "@ + message,
            ProviderErrorModel::NotFound { resource } => "provider resource not found: "@
                + resource,
            ProviderErrorModel::SyncTokenExpired { reason } => "provider sync token expired: "@
                + reason,
            ProviderErrorModel::VersionConflict { expected, actual }
                => conflict_sentence(quoted(expected), quoted(actual)),
            ProviderErrorModel::Provider(message) => "provider error: "@ + message,
        }
    }
}

/// A text as the `Debug` format of `str` writes it: quoted, with escapes.
pub uninterp spec fn debug_quoted(s: Seq<char>) -> Seq<char>;

/// The `Debug` format of `str` is a function of the text alone.
#[verifier::external_body]
fn debug_text(s: &str) -> (r: String)
    ensures
        r@ == debug_quoted(s@),
{
    format!("{s:?}")
}

/// An optional text, quoted where it is there.
pub open spec fn quoted(o: Option<Seq<char>>) -> Option<Seq<char>> {
    match o {
        Some(s) => Some(debug_quoted(s)),
        None => None,
    }
}

/// An option of something that is written out already, as the `Debug` format
/// writes it.
pub open spec fn debug_opt(o: Option<Seq<char>>) -> Seq<char> {
    match o {
        Some(s) => "Some("@ + s + ")"@,
        None => "None"@,
    }
}

/// The sentence on two versions that do not agree, each quoted where it is
/// known.
pub open spec fn conflict_sentence(expected: Option<Seq<char>>, actual: Option<Seq<char>>) -> Seq<
    char,
> {
    "provider version conflict (expected "@ + debug_opt(expected) + ", actual "@ + debug_opt(actual)
        + ")"@
}

/// An optional status as the `Debug` format writes it.
pub open spec fn debug_status(o: Option<u16>) -> Seq<char> {
    match o {
        Some(n) => "Some("@ + decimal(n as nat) + ")"@,
        None => "None"@,
    }
}

fn debug_opt_text(o: &Option<String>) -> (r: String)
    ensures
        r@ == debug_opt(opt_text(*o)),
{
    match o {
        Some(s) => concat3("Some(", s.as_str(), ")"),
        None => "None".to_owned(),
    }
}

fn quoted_text(o: &Option<String>) -> (r: Option<String>)
    ensures
        opt_text(r) == quoted(opt_text(*o)),
{
    match o {
        Some(s) => Some(debug_text(s.as_str())),
        None => None,
    }
}

/// The sentence on two versions that do not agree, each quoted where it is
/// known.
pub fn version_conflict_message(expected: &Option<String>, actual: &Option<String>) -> (r: String)
    ensures
        r@ == conflict_sentence(opt_text(*expected), opt_text(*actual)),
{
    let wanted = debug_opt_text(expected);
    let found = debug_opt_text(actual);
    concat5(
        "provider version conflict (expected ",
        wanted.as_str(),
        ", actual ",
        found.as_str(),
        ")",
    )
}

fn debug_status_text(o: &Option<u16>) -> (r: String)
    ensures
        r@ == debug_status(*o),
{
    match o {
        Some(n) => {
            let inner = u64_text(*n as u64);
            concat3("Some(", inner.as_str(), ")")
        },
        None => "None".to_owned(),
    }
}

impl ProviderError {
    /// The error for something that a provider does not offer.
    pub fn unsupported(operation: &str) -> (r: Self)
        ensures
            r@ == (ProviderErrorModel::Unsupported { operation: operation@ }),
    {
        ProviderError::Unsupported { operation: operation.to_owned() }
    }

    /// The error for an input that no provider would take.
    pub fn invalid_input(field: &str, message: &str) -> (r: Self)
        ensures
            r@ == (ProviderErrorModel::InvalidInput { field: field@, message: message@ }),
    {
        ProviderError::InvalidInput { field: field.to_owned(), message: message.to_owned() }
    }

    /// Whether trying again later can help without the user.
    pub fn is_retryable(&self) -> (r: bool)
        ensures
            r == self@.retryable(),
    {
        match self {
            ProviderError::RateLimited { .. } => true,
            ProviderError::Network(_) => true,
            ProviderError::Transient { .. } => true,
            ProviderError::AuthExpired => true,
            ProviderError::Upstream { status, .. } => 500 <= *status && *status <= 599,
            _ => false,
        }
    }

    /// Whether the user has to authenticate again.
    pub fn is_auth_error(&self) -> (r: bool)
        ensures
            r == self@.needs_auth(),
    {
        match self {
            ProviderError::AuthRequired => true,
            ProviderError::AuthExpired => true,
            ProviderError::AuthRevoked => true,
            _ => false,
        }
    }

    /// Whether it is open what a mutation did on the other side.
    pub fn mutation_outcome_is_indeterminate(&self) -> (r: bool)
        ensures
            r == self@.indeterminate(),
    {
        match self {
            ProviderError::Network(_) => true,
            ProviderError::Transient { .. } => true,
            ProviderError::Upstream { status, .. } => 500 <= *status && *status <= 599,
            _ => false,
        }
    }

    /// Whether the cached saved tracks may stand in for a failed fetch.
    pub fn saved_tracks_cache_fallback_allowed(&self) -> (r: bool)
        ensures
            r == self@.cache_may_answer(),
    {
        match self {
            ProviderError::RateLimited { .. } => true,
            _ => self.mutation_outcome_is_indeterminate(),
        }
    }

    /// The sentence that the error is shown as.
    pub fn message(&self) -> (r: String)
        ensures
            r@ == self@.sentence(),
    {
        match self {
            ProviderError::Unsupported { operation } => concat3(
                "provider operation `",
                operation.as_str(),
                "` is unsupported",
            ),
            ProviderError::RateLimited { .. } => "provider rate limited the request".to_owned(),
            ProviderError::AuthRequired => "provider authentication is required".to_owned(),
            ProviderError::AuthExpired => "provider authentication has expired".to_owned(),
            ProviderError::AuthRevoked => "provider authentication was revoked".to_owned(),
            ProviderError::Forbidden { operation } => concat3(
                "provider denied `",
                operation.as_str(),
                "`",
            ),
            ProviderError::NoActiveDevice => "provider has no active playback device".to_owned(),
            ProviderError::InvalidInput { field, message } => concat4(
                "invalid provider input `",
                field.as_str(),
                "`: ",
                message.as_str(),
            ),
            ProviderError::Network(message) => concat2(
                "provider network error: ",
                message.as_str(),
            ),
            ProviderError::Transient { status, message } => {
                let code = debug_status_text(status);
                concat4(
                    "provider transient error (status ",
                    code.as_str(),
                    "): ",
                    message.as_str(),
                )
            },
            ProviderError::Upstream { status, message } => {
                let code = u64_text(*status as u64);
                concat4("provider upstream error (HTTP ", code.as_str(), "): ", message.as_str())
            },
            ProviderError::Decode(message) => concat2(
                "provider response decode error: ",
                message.as_str(),
            ),
            ProviderError::NotFound { resource } => concat2(
                "provider resource not found: ",
                resource.as_str(),
            ),
            ProviderError::SyncTokenExpired { reason } => concat2(
                "provider sync token expired: ",
                reason.as_str(),
            ),
            ProviderError::VersionConflict { expected, actual } => {
                let wanted = quoted_text(expected);
                let found = quoted_text(actual);
                version_conflict_message(&wanted, &found)
            },
            ProviderError::Provider(message) => concat2("provider error: ", message.as_str()),
        }
    }
}

/// An error whose outcome is open may be retried, and one that needs the user
/// is never among the open ones.
pub proof fn error_classes_agree(error: ProviderErrorModel)
    ensures
        error.indeterminate() ==> error.retryable(),
        error.cache_may_answer() ==> error.retryable(),
        error.needs_auth() ==> !error.cache_may_answer(),
        error.retryable() && error.needs_auth() ==> error is AuthExpired,
{
}

/// Which failures may pass by themselves, which need the user to sign in,
/// which leave open what happened, and which a cached answer may stand in for.
pub proof fn failures_are_told_apart(error: ProviderErrorModel)
    ensures
        match error {
            ProviderErrorModel::RateLimited { .. } => error.retryable() && !error.needs_auth()
                && !error.indeterminate() && error.cache_may_answer(),
            ProviderErrorModel::Network(_) => error.retryable() && !error.needs_auth()
                && error.indeterminate() && error.cache_may_answer(),
            ProviderErrorModel::Transient { .. } => error.retryable() && !error.needs_auth()
                && error.indeterminate() && error.cache_may_answer(),
            ProviderErrorModel::Upstream { status, .. } => {
                let server = 500 <= status < 600;
                &&& error.retryable() == server && error.indeterminate() == server
                &&& error.cache_may_answer() == server && !error.needs_auth()
            },
            ProviderErrorModel::AuthExpired => error.retryable() && error.needs_auth()
                && !error.indeterminate() && !error.cache_may_answer(),
            ProviderErrorModel::AuthRequired => !error.retryable() && error.needs_auth()
                && !error.indeterminate() && !error.cache_may_answer(),
            ProviderErrorModel::AuthRevoked => !error.retryable() && error.needs_auth()
                && !error.indeterminate() && !error.cache_may_answer(),
            _ => !error.retryable() && !error.needs_auth() && !error.indeterminate()
                && !error.cache_may_answer(),
        },
{
}

/// A text in a provider's own namespace that is no identifier is told to be
/// wrong, with the reason; white space around an input does not matter.
pub proof fn malformed_own_targets_are_told(scheme: Seq<char>, rest: Seq<char>, input: Seq<char>)
    requires
        is_scheme(scheme),
        trimmed(input) == scheme + seq![':'] + rest,
    ensures
        match parsed_uri(trimmed(input)) {
            Ok(uri) => target_claim(scheme, input) == TargetClaimModel::Resolved(uri) && uri.scheme
                == scheme,
            Err(error) => target_claim(scheme, input) == (TargetClaimModel::Invalid {
                message: error.sentence(),
            }),
        },
{
    let text = trimmed(input);
    let n = scheme.len() as int;
    assert forall|i: int| 0 <= i < n implies #[trigger] text[i] != ':' by {
        assert(text[i] == scheme[i]);
        if i > 0 {
            assert(is_scheme_char(scheme[i]));
        }
    }
    lemma_first_at(text, ':', n);
    assert(text.take(n) =~= scheme);
    if parsed_uri(text) is Ok {
        let uri = parsed_uri(text)->Ok_0;
        parsed_text_is_canonical(text);
        let m = uri.scheme.len() as int;
        assert forall|i: int| 0 <= i < m implies #[trigger] text[i] != ':' by {
            assert(text[i] == uri.scheme[i]);
            if i > 0 {
                assert(is_scheme_char(uri.scheme[i]));
            }
        }
        assert(text[m] == ':');
        lemma_first_at(text, ':', m);
        assert(text.take(m) =~= uri.scheme);
    }
}

/// What does not stand in a provider's namespace is not its own.
pub proof fn other_targets_are_not_claimed(scheme: Seq<char>, input: Seq<char>)
    requires
        !(trimmed(input).len() > scheme.len() && trimmed(input).take(scheme.len() as int) == scheme
            && trimmed(input)[scheme.len() as int] == ':'),
    ensures
        target_claim(scheme, input) is NotMine,
{
    let text = trimmed(input);
    lemma_first_at_bounds(text, ':');
    if parsed_uri(text) is Ok {
        let uri = parsed_uri(text)->Ok_0;
        parsed_text_is_canonical(text);
        let m = uri.scheme.len() as int;
        assert(text[m] == ':');
        assert(text.take(m) =~= uri.scheme);
    }
}

proof fn lemma_distinct_do_not_clash(providers: Seq<DescriptorModel>)
    requires
        forall|i: int, j: int|
            0 <= i < j < providers.len() ==> providers[i].id != providers[j].id
                && providers[i].scheme != providers[j].scheme,
    ensures
        first_clash(providers) is None,
    decreases providers.len(),
{
    if providers.len() > 0 {
        let before = providers.drop_last();
        assert forall|i: int, j: int| 0 <= i < j < before.len() implies before[i].id != before[j].id
            && before[i].scheme != before[j].scheme by {
            assert(before[i] == providers[i] && before[j] == providers[j]);
        }
        lemma_distinct_do_not_clash(before);
        assert forall|i: int| 0 <= i < before.len() implies (#[trigger] before[i]).id
            != providers.last().id && before[i].scheme != providers.last().scheme by {
            assert(before[i] == providers[i]);
        }
    }
}

proof fn lemma_marked_once(providers: Seq<DescriptorModel>, n: int)
    requires
        0 <= n < providers.len(),
        forall|i: int|
            0 <= i < providers.len() ==> ((#[trigger] providers[i]).is_default <==> i == n),
    ensures
        marked(providers) == seq![providers[n]],
    decreases providers.len(),
{
    reveal(Seq::filter);
    let before = providers.drop_last();
    assert(forall|i: int| 0 <= i < before.len() ==> before[i] == providers[i]);
    if n < before.len() {
        lemma_marked_once(before, n);
        assert(!providers[providers.len() - 1].is_default);
        assert(marked(providers) == marked(before));
    } else {
        lemma_marked_nowhere(before);
        assert(marked(providers) =~= seq![providers[n]]);
    }
}

proof fn lemma_marked_nowhere(providers: Seq<DescriptorModel>)
    requires
        forall|i: int| 0 <= i < providers.len() ==> !(#[trigger] providers[i]).is_default,
    ensures
        marked(providers).len() == 0,
    decreases providers.len(),
{
    reveal(Seq::filter);
    if providers.len() > 0 {
        let before = providers.drop_last();
        assert(forall|i: int| 0 <= i < before.len() ==> before[i] == providers[i]);
        assert(!providers[providers.len() - 1].is_default);
        lemma_marked_nowhere(before);
    }
}

/// A catalog without clashes whose default is the one marked provider, or
/// which has neither a default nor a mark, is accepted.
pub proof fn unambiguous_catalogs_are_accepted(
    default_provider: Option<Seq<char>>,
    providers: Seq<DescriptorModel>,
    n: int,
)
    requires
        forall|i: int, j: int|
            0 <= i < j < providers.len() ==> providers[i].id != providers[j].id
                && providers[i].scheme != providers[j].scheme,
        match default_provider {
            Some(default) => {
                &&& 0 <= n < providers.len() && providers[n].id == default
                &&& forall|i: int|
                    0 <= i < providers.len() ==> ((#[trigger] providers[i]).is_default <==> i == n)
            },
            None => forall|i: int|
                0 <= i < providers.len() ==> !(#[trigger] providers[i]).is_default,
        },
    ensures
        catalog_fault(default_provider, providers) is None,
{
    lemma_distinct_do_not_clash(providers);
    match default_provider {
        Some(_) => {
            lemma_marked_once(providers, n);
        },
        None => {
            lemma_marked_nowhere(providers);
        },
    }
}

/// The first provider that clashes with an earlier one is what a catalog is
/// refused for: for its id where that is taken, else for its scheme.
pub proof fn the_first_clash_is_told(
    default_provider: Option<Seq<char>>,
    providers: Seq<DescriptorModel>,
    k: int,
    n: int,
)
    requires
        0 <= k < n < providers.len(),
        forall|i: int, j: int|
            0 <= i < j < n ==> providers[i].id != providers[j].id && providers[i].scheme
                != providers[j].scheme,
        providers[k].id == providers[n].id || providers[k].scheme == providers[n].scheme && (forall|
            i: int,
        |
            0 <= i < n ==> (#[trigger] providers[i]).id != providers[n].id),
    ensures
        providers[k].id == providers[n].id ==> catalog_fault(default_provider, providers) == Some(
            "provider catalog contains duplicate id `"@ + providers[n].id + "`"@,
        ),
        providers[k].id != providers[n].id ==> catalog_fault(default_provider, providers) == Some(
            "provider catalog contains duplicate URI scheme `"@ + providers[n].scheme + "`"@,
        ),
    decreases providers.len(),
{
    let before = providers.drop_last();
    if n < before.len() {
        assert forall|i: int, j: int| 0 <= i < j < n implies before[i].id != before[j].id
            && before[i].scheme != before[j].scheme by {
            assert(before[i] == providers[i] && before[j] == providers[j]);
        }
        assert(before[k] == providers[k] && before[n] == providers[n]);
        assert(forall|i: int| 0 <= i < n ==> before[i] == providers[i]);
        the_first_clash_is_told(default_provider, before, k, n);
        lemma_fault_of_a_clash(default_provider, before);
    } else {
        assert forall|i: int, j: int| 0 <= i < j < before.len() implies before[i].id != before[j].id
            && before[i].scheme != before[j].scheme by {
            assert(before[i] == providers[i] && before[j] == providers[j]);
        }
        lemma_distinct_do_not_clash(before);
        assert(before[k] == providers[k]);
        assert(forall|i: int| 0 <= i < before.len() ==> before[i] == providers[i]);
    }
}

proof fn lemma_fault_of_a_clash(
    default_provider: Option<Seq<char>>,
    providers: Seq<DescriptorModel>,
)
    requires
        exists|i: int, j: int|
            0 <= i < j < providers.len() && (providers[i].id == providers[j].id
                || providers[i].scheme == providers[j].scheme),
    ensures
        first_clash(providers) is Some,
        catalog_fault(default_provider, providers) == first_clash(providers),
{
    if first_clash(providers) is None {
        lemma_no_clash(providers);
    }
}

/// Every failure is told in its own words, with what it is about.
pub proof fn failures_are_told_in_words(error: ProviderErrorModel)
    ensures
        match error {
            ProviderErrorModel::Unsupported { operation } => error.sentence()
                == "provider operation `"@ + operation + "` is unsupported"@,
            ProviderErrorModel::RateLimited { .. } => error.sentence()
                == "provider rate limited the request"@,
            ProviderErrorModel::AuthRequired => error.sentence()
                == "provider authentication is required"@,
            ProviderErrorModel::AuthExpired => error.sentence()
                == "provider authentication has expired"@,
            ProviderErrorModel::AuthRevoked => error.sentence()
                == "provider authentication was revoked"@,
            ProviderErrorModel::Forbidden { operation } => error.sentence() == "provider denied `"@
                + operation + "`"@,
            ProviderErrorModel::NoActiveDevice => error.sentence()
                == "provider has no active playback device"@,
            ProviderErrorModel::InvalidInput { field, message } => error.sentence()
                == "invalid provider input `"@ + field + "`: "@ + message,
            ProviderErrorModel::Network(message) => error.sentence()
                == "provider network error: "@ + message,
            ProviderErrorModel::Transient { status, message } => {
                &&& status is None ==> error.sentence() == "provider transient error (status "@
                    + "None"@ + "): "@ + message
                &&& status is Some ==> error.sentence() == "provider transient error (status "@ + (
                "Some("@ + decimal(status->0 as nat) + ")"@) + "): "@ + message
            },
            ProviderErrorModel::Upstream { status, message } => error.sentence()
                == "provider upstream error (HTTP "@ + decimal(status as nat) + "): "@ + message,
            ProviderErrorModel::Decode(message) => error.sentence()
                == "provider response decode error: "@ + message,
            ProviderErrorModel::NotFound { resource } => error.sentence()
                == "provider resource not found: "@ + resource,
            ProviderErrorModel::SyncTokenExpired { reason } => error.sentence()
                == "provider sync token expired: "@ + reason,
            _ => true,
        },
        error matches ProviderErrorModel::VersionConflict { expected, actual } ==> {
            &&& expected is None && actual is None ==> error.sentence()
                == "provider version conflict (expected "@ + "None"@ + ", actual "@ + "None"@
                + ")"@
            &&& expected is Some && actual is Some ==> error.sentence()
                == "provider version conflict (expected "@ + ("Some("@ + debug_quoted(
                expected->0,
            ) + ")"@) + ", actual "@ + ("Some("@ + debug_quoted(actual->0) + ")"@) + ")"@
        },
{
}

/// Targets, catalogs and failures are judged as is told of them.
pub proof fn providers_answer_as_told()
    ensures
        forall|scheme: &UriScheme, input: &str, answer: TargetClaim|
            #[trigger] call_ensures(claim_target, (scheme, input), answer) ==> {
                &&& answer@ == target_claim(scheme@, input@)
            },
        forall|this: &ProviderCatalog, answer: Result<(), String>|
            #[trigger] call_ensures(ProviderCatalog::validate, (this,), answer) ==> {
                &&& match answer {
                    Ok(_) => catalog_fault(
                        opt_view(this.default_provider),
                        seq_view(this.providers@),
                    ) is None,
                    Err(message) => catalog_fault(
                        opt_view(this.default_provider),
                        seq_view(this.providers@),
                    ) == Some(message@),
                }
            },
        forall|this: &ProviderError, answer: bool|
            #[trigger] call_ensures(ProviderError::is_retryable, (this,), answer) ==> {
                &&& answer == this@.retryable()
            },
        forall|this: &ProviderError, answer: bool|
            #[trigger] call_ensures(ProviderError::is_auth_error, (this,), answer) ==> {
                &&& answer == this@.needs_auth()
            },
        forall|this: &ProviderError, answer: bool|
            #[trigger] call_ensures(
                ProviderError::mutation_outcome_is_indeterminate,
                (this,),
                answer,
            ) ==> {
                &&& answer == this@.indeterminate()
            },
        forall|this: &ProviderError, answer: bool|
            #[trigger] call_ensures(
                ProviderError::saved_tracks_cache_fallback_allowed,
                (this,),
                answer,
            ) ==> {
                &&& answer == this@.cache_may_answer()
            },
        forall|this: &ProviderError, answer: String|
            #[trigger] call_ensures(ProviderError::message, (this,), answer) ==> {
                &&& answer@ == this@.sentence()
            },
{
}

} // verus!
