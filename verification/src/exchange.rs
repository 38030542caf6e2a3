//! What is asked of a provider and what comes back.

use vstd::prelude::*;
use vstd::string::*;

use crate::media::{Device, MediaKind, Playback, Playlist, Queue, RepeatMode};
use crate::provider::{ProviderError, ProviderErrorModel, ProviderId, ProviderResult};
use crate::text::{copy_opt, lemma_seq_view_push, lemma_texts_push, opt_text, same_text, seq_view};
use crate::uri::{ResourceUri, UriModel};

verus! {

broadcast use {lemma_seq_view_push, lemma_texts_push};

// ---------------------------------------------------------------------------
// Access and freshness
// ---------------------------------------------------------------------------

/// A resource that exists may still be unreadable.
#[derive(Clone, Debug, PartialEq, Eq)]
pub enum AccessOutcome<T> {
    Available(T),
    Unavailable(AccessUnavailable),
}

/// Why a resource is unreadable.
#[derive(Clone, Copy, Debug, PartialEq, Eq, Structural)]
pub enum AccessUnavailable {
    Private,
    RegionRestricted,
    SubscriptionRequired,
    TemporarilyUnavailable,
}

impl AccessUnavailable {
    pub open spec fn name(self) -> Seq<char> {
        match self {
            AccessUnavailable::Private => "Private"@,
            AccessUnavailable::RegionRestricted => "RegionRestricted"@,
            AccessUnavailable::SubscriptionRequired => "SubscriptionRequired"@,
            AccessUnavailable::TemporarilyUnavailable => "TemporarilyUnavailable"@,
        }
    }

    /// The name of the reason, as error messages write it.
    pub fn label(self) -> (r: &'static str)
        ensures
            r@ == self.name(),
    {
        match self {
            AccessUnavailable::Private => "Private",
            AccessUnavailable::RegionRestricted => "RegionRestricted",
            AccessUnavailable::SubscriptionRequired => "SubscriptionRequired",
            AccessUnavailable::TemporarilyUnavailable => "TemporarilyUnavailable",
        }
    }
}

/// An opaque value that changes when a library does.
#[derive(Clone, Debug, PartialEq, Eq)]
pub struct FreshnessProbe(pub Vec<u8>);

fn same_bytes(a: &[u8], b: &[u8]) -> (r: bool)
    ensures
        r == (a@ == b@),
{
    if a.len() != b.len() {
        return false;
    }
    let mut i: usize = 0;
    while i < a.len()
        invariant
            i <= a@.len(),
            a@.len() == b@.len(),
            forall|k: int| 0 <= k < i ==> a@[k] == b@[k],
        decreases a@.len() - i,
    {
        if a[i] != b[i] {
            return false;
        }
        i = i + 1;
    }
    assert(a@ =~= b@);
    true
}

/// Whether a library changed between two probes.
pub fn library_freshness_changed(previous: &FreshnessProbe, current: &FreshnessProbe) -> (r: bool)
    ensures
        r == (previous.0@ != current.0@),
{
    !same_bytes(previous.0.as_slice(), current.0.as_slice())
}

/// Whether a playlist may have changed between two version tokens. Without
/// both tokens nothing proves that it has not.
pub fn playlist_version_changed(previous: Option<&str>, current: Option<&str>) -> (r: bool)
    ensures
        r == !(previous is Some && current is Some && previous->0@ == current->0@),
{
    match (previous, current) {
        (Some(previous), Some(current)) => !same_text(previous, current),
        _ => true,
    }
}

// ---------------------------------------------------------------------------
// Scheduling and paging
// ---------------------------------------------------------------------------

/// The lane that a provider call is scheduled in.
#[derive(Clone, Copy, Debug, PartialEq, Eq, Hash, Structural)]
pub enum RequestPriority {
    Foreground,
    BackgroundSync,
    PlaybackControl,
}

impl Default for RequestPriority {
    fn default() -> (r: Self)
        ensures
            r == RequestPriority::Foreground,
    {
        RequestPriority::Foreground
    }
}

/// How a provider call is to be scheduled.
#[derive(Clone, Copy, Debug, PartialEq, Eq, Structural)]
pub struct RequestContext {
    pub priority: RequestPriority,
}

impl RequestContext {
    /// A call that a user waits for.
    pub fn foreground() -> (r: Self)
        ensures
            r.priority == RequestPriority::Foreground,
    {
        RequestContext { priority: RequestPriority::Foreground }
    }

    /// A call of the background sync.
    pub fn background_sync() -> (r: Self)
        ensures
            r.priority == RequestPriority::BackgroundSync,
    {
        RequestContext { priority: RequestPriority::BackgroundSync }
    }

    /// A call that controls playback.
    pub fn playback_control() -> (r: Self)
        ensures
            r.priority == RequestPriority::PlaybackControl,
    {
        RequestContext { priority: RequestPriority::PlaybackControl }
    }
}

impl Default for RequestContext {
    fn default() -> (r: Self)
        ensures
            r.priority == RequestPriority::Foreground,
    {
        RequestContext { priority: RequestPriority::Foreground }
    }
}

/// Which page of a list is asked for.
#[derive(Debug, PartialEq, Eq)]
pub struct PageRequest {
    pub limit: u32,
    pub offset: u64,
    pub cursor: Option<String>,
}

/// A page request as plain values.
pub struct PageRequestModel {
    pub limit: u32,
    pub offset: u64,
    pub cursor: Option<Seq<char>>,
}

impl View for PageRequest {
    type V = PageRequestModel;

    open spec fn view(&self) -> PageRequestModel {
        PageRequestModel { limit: self.limit, offset: self.offset, cursor: opt_text(self.cursor) }
    }
}

impl Clone for PageRequest {
    fn clone(&self) -> (r: Self)
        ensures
            r@ == self@,
    {
        PageRequest { limit: self.limit, offset: self.offset, cursor: copy_opt(&self.cursor) }
    }
}

impl PageRequest {
    /// A page by its offset.
    pub fn new(limit: u32, offset: u64) -> (r: Self)
        ensures
            r@ == (PageRequestModel { limit, offset, cursor: None }),
    {
        PageRequest { limit, offset, cursor: None }
    }

    /// A page by the cursor of the one before it.
    pub fn with_cursor(limit: u32, offset: u64, cursor: &str) -> (r: Self)
        ensures
            r@ == (PageRequestModel { limit, offset, cursor: Some(cursor@) }),
    {
        PageRequest { limit, offset, cursor: Some(cursor.to_owned()) }
    }
}

impl Default for PageRequest {
    fn default() -> (r: Self)
        ensures
            r@ == (PageRequestModel { limit: 50, offset: 0, cursor: None }),
    {
        PageRequest { limit: 50, offset: 0, cursor: None }
    }
}

/// How a list goes on behind a page.
#[derive(Debug, PartialEq, Eq)]
pub enum PageContinuation {
    Offset(u64),
    Cursor(String),
}

/// A continuation as plain values.
pub enum ContinuationModel {
    Offset(u64),
    Cursor(Seq<char>),
}

impl View for PageContinuation {
    type V = ContinuationModel;

    open spec fn view(&self) -> ContinuationModel {
        match *self {
            PageContinuation::Offset(offset) => ContinuationModel::Offset(offset),
            PageContinuation::Cursor(cursor) => ContinuationModel::Cursor(cursor@),
        }
    }
}

impl Clone for PageContinuation {
    fn clone(&self) -> (r: Self)
        ensures
            r@ == self@,
    {
        match self {
            PageContinuation::Offset(offset) => PageContinuation::Offset(*offset),
            PageContinuation::Cursor(cursor) => PageContinuation::Cursor(cursor.clone()),
        }
    }
}

/// A page of a provider's list. Not every provider knows the total.
#[derive(Clone, Debug, PartialEq)]
pub struct ProviderPage<T> {
    pub items: Vec<T>,
    pub requested_offset: u64,
    pub total: Option<u64>,
    pub next: Option<PageContinuation>,
}

/// A page of search results of one kind.
#[derive(Clone, Debug, PartialEq, Eq)]
pub struct SearchRequest {
    pub query: String,
    pub kind: MediaKind,
    pub page: PageRequest,
}

impl Default for SearchRequest {
    fn default() -> (r: Self)
        ensures
            r.query@ == Seq::<char>::empty(),
            r.kind == MediaKind::Track,
            r.page@ == (PageRequestModel { limit: 50, offset: 0, cursor: None }),
    {
        SearchRequest {
            query: String::new(),
            kind: MediaKind::Track,
            page: PageRequest::default(),
        }
    }
}

/// A page of the user's library, of one kind.
#[derive(Clone, Debug, PartialEq, Eq)]
pub struct LibraryRequest {
    pub kind: MediaKind,
    pub page: PageRequest,
}

impl Default for LibraryRequest {
    fn default() -> (r: Self)
        ensures
            r.kind == MediaKind::Track,
            r.page@ == (PageRequestModel { limit: 50, offset: 0, cursor: None }),
    {
        LibraryRequest { kind: MediaKind::Track, page: PageRequest::default() }
    }
}

/// A page of what a resource holds.
#[derive(Clone, Debug, PartialEq, Eq)]
pub struct CollectionRequest {
    pub uri: ResourceUri,
    pub page: PageRequest,
}

// ---------------------------------------------------------------------------
// Mutations
// ---------------------------------------------------------------------------

/// An item to remove from a playlist: every occurrence where no positions are
/// given, else the occurrences at these zero-based positions.
#[derive(Debug, PartialEq, Eq)]
pub struct PlaylistItemRef {
    pub uri: ResourceUri,
    pub positions: Vec<u32>,
}

/// An item to remove, as plain values.
pub struct ItemRefModel {
    pub uri: UriModel,
    pub positions: Seq<u32>,
}

impl View for PlaylistItemRef {
    type V = ItemRefModel;

    open spec fn view(&self) -> ItemRefModel {
        ItemRefModel { uri: self.uri@, positions: self.positions@ }
    }
}

impl Clone for PlaylistItemRef {
    fn clone(&self) -> (r: Self)
        ensures
            r@ == self@,
    {
        let mut positions: Vec<u32> = Vec::new();
        let mut i: usize = 0;
        while i < self.positions.len()
            invariant
                i <= self.positions@.len(),
                positions@ =~= self.positions@.take(i as int),
            decreases self.positions@.len() - i,
        {
            positions.push(self.positions[i]);
            i = i + 1;
        }
        assert(positions@ =~= self.positions@);
        PlaylistItemRef { uri: self.uri.clone(), positions }
    }
}

/// An item to insert into a playlist; without a position it goes to the end.
#[derive(Debug, PartialEq, Eq)]
pub struct PlaylistInsertion {
    pub uri: ResourceUri,
    pub position: Option<u32>,
}

/// An item to insert, as plain values.
pub struct InsertionModel {
    pub uri: UriModel,
    pub position: Option<u32>,
}

impl View for PlaylistInsertion {
    type V = InsertionModel;

    open spec fn view(&self) -> InsertionModel {
        InsertionModel { uri: self.uri@, position: self.position }
    }
}

impl Clone for PlaylistInsertion {
    fn clone(&self) -> (r: Self)
        ensures
            r@ == self@,
    {
        PlaylistInsertion { uri: self.uri.clone(), position: self.position }
    }
}

/// A change that is asked of a provider.
#[derive(Clone, Debug, PartialEq)]
pub enum Mutation {
    PlaylistCreate { name: String, public: Option<bool>, description: Option<String> },
    PlaylistAdd {
        playlist_uri: ResourceUri,
        items: Vec<PlaylistInsertion>,
        expected_version: Option<String>,
    },
    PlaylistRemove {
        playlist_uri: ResourceUri,
        items: Vec<PlaylistItemRef>,
        expected_version: Option<String>,
    },
    PlaylistReorder {
        playlist_uri: ResourceUri,
        range_start: u32,
        insert_before: u32,
        range_length: u32,
        expected_version: Option<String>,
    },
    PlaylistSetImage { playlist_uri: ResourceUri, jpeg: Vec<u8> },
    PlaylistUnfollow { playlist_uri: ResourceUri },
    LibrarySave { uris: Vec<ResourceUri> },
    LibraryUnsave { uris: Vec<ResourceUri> },
    Follow { uris: Vec<ResourceUri> },
    Unfollow { uris: Vec<ResourceUri> },
}

/// A mutation as plain values.
pub enum MutationModel {
    PlaylistCreate {
        name: Seq<char>,
        public: Option<bool>,
        description: Option<Seq<char>>,
    },
    PlaylistAdd {
        playlist_uri: UriModel,
        items: Seq<InsertionModel>,
        expected_version: Option<Seq<char>>,
    },
    PlaylistRemove {
        playlist_uri: UriModel,
        items: Seq<ItemRefModel>,
        expected_version: Option<Seq<char>>,
    },
    PlaylistReorder {
        playlist_uri: UriModel,
        range_start: u32,
        insert_before: u32,
        range_length: u32,
        expected_version: Option<Seq<char>>,
    },
    PlaylistSetImage { playlist_uri: UriModel, jpeg: Seq<u8> },
    PlaylistUnfollow { playlist_uri: UriModel },
    LibrarySave { uris: Seq<UriModel> },
    LibraryUnsave { uris: Seq<UriModel> },
    Follow { uris: Seq<UriModel> },
    Unfollow { uris: Seq<UriModel> },
}

impl View for Mutation {
    type V = MutationModel;

    open spec fn view(&self) -> MutationModel {
        match *self {
            Mutation::PlaylistCreate { name, public, description }
                => MutationModel::PlaylistCreate {
                name: name@,
                public,
                description: opt_text(description),
            },
            Mutation::PlaylistAdd { playlist_uri, items, expected_version }
                => MutationModel::PlaylistAdd {
                playlist_uri: playlist_uri@,
                items: seq_view(items@),
                expected_version: opt_text(expected_version),
            },
            Mutation::PlaylistRemove { playlist_uri, items, expected_version }
                => MutationModel::PlaylistRemove {
                playlist_uri: playlist_uri@,
                items: seq_view(items@),
                expected_version: opt_text(expected_version),
            },
            Mutation::PlaylistReorder {
                playlist_uri,
                range_start,
                insert_before,
                range_length,
                expected_version,
            } => MutationModel::PlaylistReorder {
                playlist_uri: playlist_uri@,
                range_start,
                insert_before,
                range_length,
                expected_version: opt_text(expected_version),
            },
            Mutation::PlaylistSetImage { playlist_uri, jpeg } => MutationModel::PlaylistSetImage {
                playlist_uri: playlist_uri@,
                jpeg: jpeg@,
            },
            Mutation::PlaylistUnfollow { playlist_uri } => MutationModel::PlaylistUnfollow {
                playlist_uri: playlist_uri@,
            },
            Mutation::LibrarySave { uris } => MutationModel::LibrarySave { uris: seq_view(uris@) },
            Mutation::LibraryUnsave { uris } => MutationModel::LibraryUnsave {
                uris: seq_view(uris@),
            },
            Mutation::Follow { uris } => MutationModel::Follow { uris: seq_view(uris@) },
            Mutation::Unfollow { uris } => MutationModel::Unfollow { uris: seq_view(uris@) },
        }
    }
}

/// What a mutation did.
#[derive(Clone, Debug, PartialEq)]
pub enum MutationOutcome {
    PlaylistCreated { playlist: Playlist },
    PlaylistChanged { playlist_uri: ResourceUri },
    PlaylistImageSet { playlist_uri: ResourceUri },
    PlaylistUnfollowed { playlist_uri: ResourceUri },
    LibraryChanged { uris: Vec<ResourceUri>, saved: bool },
    FollowChanged { uris: Vec<ResourceUri>, following: bool },
}

/// Whether a mutation was applied as a whole.
#[derive(Clone, Copy, Debug, PartialEq, Eq, Structural)]
pub enum MutationCompletion {
    Applied,
    PartiallyApplied,
}

/// An item that a mutation failed on.
#[derive(Clone, Debug, PartialEq, Eq)]
pub struct MutationFailure {
    pub uri: Option<ResourceUri>,
    pub message: String,
}

/// The receipt of a mutation. The id is the number behind its UUID;
/// `failures` is empty unless the mutation was applied in part.
#[derive(Clone, Debug, PartialEq)]
pub struct MutationReceipt {
    pub mutation_id: u128,
    pub provider: ProviderId,
    pub completion: MutationCompletion,
    pub outcome: MutationOutcome,
    pub version_token: Option<String>,
    pub failures: Vec<MutationFailure>,
}

// ---------------------------------------------------------------------------
// Transport
// ---------------------------------------------------------------------------

/// The device that a transport command is for.
#[derive(Clone, Debug, PartialEq, Eq)]
pub enum TransportDevice {
    Active,
    Id(String),
}

/// What is played from: the track alone, a context of the provider, or an
/// explicit list, which has to hold the track to start with.
#[derive(Clone, Debug, PartialEq, Eq)]
pub enum PlaySource {
    Single,
    Context(ResourceUri),
    Ordered(Vec<ResourceUri>),
}

/// A request to play.
#[derive(Clone, Debug, PartialEq, Eq)]
pub struct PlayRequest {
    pub start_uri: ResourceUri,
    pub source: PlaySource,
    pub device: TransportDevice,
    pub position_ms: u64,
}

/// Whether a resource is in a list.
pub fn uri_in(uris: &[ResourceUri], uri: &ResourceUri) -> (r: bool)
    ensures
        r == seq_view(uris@).contains(uri@),
{
    let mut i: usize = 0;
    while i < uris.len()
        invariant
            i <= uris@.len(),
            forall|k: int| 0 <= k < i ==> #[trigger] seq_view(uris@)[k] != uri@,
        decreases uris@.len() - i,
    {
        if uris[i].same(uri) {
            assert(seq_view(uris@)[i as int] == uri@);
            return true;
        }
        i = i + 1;
    }
    false
}

impl PlayRequest {
    /// Whether the request makes sense: an explicit list holds the track to
    /// start with.
    pub open spec fn consistent(&self) -> bool {
        match self.source {
            PlaySource::Ordered(uris) => seq_view(uris@).contains(self.start_uri@),
            _ => true,
        }
    }

    /// Rejects an explicit list without the track to start with.
    pub fn validate(&self) -> (r: ProviderResult<()>)
        ensures
            match r {
                Ok(_) => self.consistent(),
                Err(error) => !self.consistent() && error@ == (ProviderErrorModel::InvalidInput {
                    field: "source"@,
                    message: "ordered playback source must contain start_uri"@,
                }),
            },
    {
        if let PlaySource::Ordered(uris) = &self.source {
            if !uri_in(uris.as_slice(), &self.start_uri) {
                return Err(
                    ProviderError::invalid_input(
                        "source",
                        "ordered playback source must contain start_uri",
                    ),
                );
            }
        }
        Ok(())
    }
}

/// A request to append to the queue.
#[derive(Clone, Debug, PartialEq, Eq)]
pub struct QueueAddRequest {
    pub uri: ResourceUri,
    pub device: TransportDevice,
}

/// A command to remote playback.
#[derive(Clone, Debug, PartialEq, Eq)]
pub enum TransportCommand {
    Play(PlayRequest),
    Pause,
    Resume,
    Next,
    Previous,
    Seek { position_ms: u64 },
    Volume { percent: u8 },
    Shuffle { enabled: bool },
    Repeat { mode: RepeatMode },
    QueueAdd(QueueAddRequest),
    Transfer { device_id: String, play: bool },
}

/// What a transport command came back with.
#[derive(Clone, Debug, Default, PartialEq)]
pub struct TransportOutcome {
    pub playback: Option<Playback>,
    pub queue: Option<Queue>,
    pub devices: Option<Vec<Device>>,
}

/// The words for why something cannot be read.
pub proof fn reasons_use_these_words(
    reason: AccessUnavailable,
)
    ensures
        match reason {
            AccessUnavailable::Private => reason.name() == "Private"@,
            AccessUnavailable::RegionRestricted => reason.name() == "RegionRestricted"@,
            AccessUnavailable::SubscriptionRequired => reason.name() == "SubscriptionRequired"@,
            AccessUnavailable::TemporarilyUnavailable => reason.name() == "TemporarilyUnavailable"@,
        },
{
}

/// An explicit list to play is taken exactly where it holds the track to start
/// with; a single track and a context always are.
pub proof fn lists_hold_their_first_track(request: &PlayRequest, answer: ProviderResult<()>)
    requires
        call_ensures(PlayRequest::validate, (request,), answer),
    ensures
        request.source is Single || request.source is Context ==> answer is Ok,
        request.source matches PlaySource::Ordered(uris) ==> (answer is Ok <==> exists|i: int|
            0 <= i < uris@.len() && (#[trigger] uris@[i])@ == request.start_uri@),
        answer matches Err(error) ==> error@ == (ProviderErrorModel::InvalidInput {
            field: "source"@,
            message: "ordered playback source must contain start_uri"@,
        }),
{
    if let PlaySource::Ordered(uris) = request.source {
        let all = seq_view(uris@);
        if all.contains(request.start_uri@) {
            let i = all.index_of(request.start_uri@);
            assert(uris@[i]@ == request.start_uri@);
        }
        if exists|i: int| 0 <= i < uris@.len() && (#[trigger] uris@[i])@ == request.start_uri@ {
            let i = choose|i: int|
                0 <= i < uris@.len() && (#[trigger] uris@[i])@ == request.start_uri@;
            assert(all[i] == request.start_uri@);
        }
    }
}

/// A playlist counts as unchanged only where both of its versions are known
/// and the same, and a library where both of its probes hold the same bytes.
pub proof fn only_equal_versions_are_unchanged(
    previous: Option<&str>,
    current: Option<&str>,
    playlist: bool,
    before: &FreshnessProbe,
    after: &FreshnessProbe,
    library: bool,
)
    requires
        call_ensures(playlist_version_changed, (previous, current), playlist),
        call_ensures(library_freshness_changed, (before, after), library),
    ensures
        previous is None || current is None ==> playlist,
        previous is Some && current is Some ==> (playlist <==> previous->0@ != current->0@),
        library <==> before.0@.len() != after.0@.len() || exists|i: int|
            0 <= i < before.0@.len() && #[trigger] before.0@[i] != after.0@[i],
{
    if before.0@.len() == after.0@.len() && (forall|i: int|
        0 <= i < before.0@.len() ==> #[trigger] before.0@[i] == after.0@[i]) {
        assert(before.0@ =~= after.0@);
    }
}

} // verus!
