//! Provider-neutral media values: kinds, items, devices, playlists, queues
//! and playback snapshots.

use vstd::prelude::*;
use vstd::string::*;

use crate::release_date::ReleaseDate;
use crate::speed::PlaybackSpeed;
use crate::text::{
    concat3, copy_opt, lemma_seq_view_push, lemma_texts_push, opt_text, opt_view, same_text,
    seq_view, texts,
};

verus! {

broadcast use {lemma_seq_view_push, lemma_texts_push};

// ---------------------------------------------------------------------------
// Kinds of media
// ---------------------------------------------------------------------------

/// What a resource is.
#[derive(Clone, Copy, Debug, PartialEq, Eq, Hash, Structural)]
pub enum MediaKind {
    Track,
    Episode,
    Show,
    Album,
    Artist,
    Playlist,
}

impl View for MediaKind {
    type V = MediaKind;

    open spec fn view(&self) -> MediaKind {
        *self
    }
}

impl Default for MediaKind {
    fn default() -> (r: Self)
        ensures
            r == MediaKind::Track,
    {
        MediaKind::Track
    }
}

impl MediaKind {
    /// The lowercase name of the kind, as it stands in a resource URI.
    pub open spec fn name(self) -> Seq<char> {
        match self {
            MediaKind::Track => "track"@,
            MediaKind::Episode => "episode"@,
            MediaKind::Show => "show"@,
            MediaKind::Album => "album"@,
            MediaKind::Artist => "artist"@,
            MediaKind::Playlist => "playlist"@,
        }
    }

    /// The kind that a name stands for.
    pub open spec fn named(s: Seq<char>) -> Option<MediaKind> {
        if s == "track"@ {
            Some(MediaKind::Track)
        } else if s == "episode"@ {
            Some(MediaKind::Episode)
        } else if s == "show"@ {
            Some(MediaKind::Show)
        } else if s == "album"@ {
            Some(MediaKind::Album)
        } else if s == "artist"@ {
            Some(MediaKind::Artist)
        } else if s == "playlist"@ {
            Some(MediaKind::Playlist)
        } else {
            None
        }
    }

    pub fn label(&self) -> (r: &'static str)
        ensures
            r@ == self.name(),
    {
        match self {
            MediaKind::Track => "track",
            MediaKind::Episode => "episode",
            MediaKind::Show => "show",
            MediaKind::Album => "album",
            MediaKind::Artist => "artist",
            MediaKind::Playlist => "playlist",
        }
    }

    /// The kind of that exact name; any other text is handed back in the
    /// error.
    pub fn from_label(value: &str) -> (r: Result<MediaKind, MediaKindParseError>)
        ensures
            match r {
                Ok(kind) => MediaKind::named(value@) == Some(kind),
                Err(error) => MediaKind::named(value@) is None && error.value@ == value@,
            },
    {
        if same_text(value, "track") {
            Ok(MediaKind::Track)
        } else if same_text(value, "episode") {
            Ok(MediaKind::Episode)
        } else if same_text(value, "show") {
            Ok(MediaKind::Show)
        } else if same_text(value, "album") {
            Ok(MediaKind::Album)
        } else if same_text(value, "artist") {
            Ok(MediaKind::Artist)
        } else if same_text(value, "playlist") {
            Ok(MediaKind::Playlist)
        } else {
            Err(MediaKindParseError { value: value.to_owned() })
        }
    }
}

impl std::str::FromStr for MediaKind {
    type Err = MediaKindParseError;

    fn from_str(value: &str) -> (r: Result<Self, Self::Err>)
        ensures
            match r {
                Ok(kind) => MediaKind::named(value@) == Some(kind),
                Err(error) => MediaKind::named(value@) is None && error.value@ == value@,
            },
    {
        MediaKind::from_label(value)
    }
}

/// Every kind is found again under its own name, and every name that stands
/// for a kind is that kind's name.
pub proof fn media_kind_names_round_trip(kind: MediaKind, s: Seq<char>)
    ensures
        MediaKind::named(kind.name()) == Some(kind),
        MediaKind::named(s) == Some(kind) ==> s == kind.name(),
{
    reveal_strlit("track");
    reveal_strlit("episode");
    reveal_strlit("show");
    reveal_strlit("album");
    reveal_strlit("artist");
    reveal_strlit("playlist");
    assert("track"@[0] != "album"@[0]);
    assert("track"@ != "album"@);
    assert("track"@.len() == 5 && "episode"@.len() == 7 && "show"@.len() == 4);
    assert("album"@.len() == 5 && "artist"@.len() == 6 && "playlist"@.len() == 8);
}

/// A text that names no kind of media.
#[derive(Clone, Debug, PartialEq, Eq)]
pub struct MediaKindParseError {
    pub value: String,
}

impl MediaKindParseError {
    pub fn message(&self) -> (r: String)
        ensures
            r@ == "unknown media kind `"@ + self.value@ + "`"@,
    {
        concat3("unknown media kind `", self.value.as_str(), "`")
    }
}

// ---------------------------------------------------------------------------
// Repeat modes
// ---------------------------------------------------------------------------

/// Whether playback repeats the context, the track, or nothing.
#[derive(Clone, Copy, Debug, PartialEq, Eq, Structural)]
pub enum RepeatMode {
    Off,
    Context,
    Track,
}

impl Default for RepeatMode {
    fn default() -> (r: Self)
        ensures
            r == RepeatMode::Off,
    {
        RepeatMode::Off
    }
}

impl RepeatMode {
    pub open spec fn name(self) -> Seq<char> {
        match self {
            RepeatMode::Off => "off"@,
            RepeatMode::Context => "context"@,
            RepeatMode::Track => "track"@,
        }
    }

    pub open spec fn named(s: Seq<char>) -> Option<RepeatMode> {
        if s == "off"@ {
            Some(RepeatMode::Off)
        } else if s == "context"@ {
            Some(RepeatMode::Context)
        } else if s == "track"@ {
            Some(RepeatMode::Track)
        } else {
            None
        }
    }

    pub fn label(self) -> (r: &'static str)
        ensures
            r@ == self.name(),
    {
        match self {
            RepeatMode::Off => "off",
            RepeatMode::Context => "context",
            RepeatMode::Track => "track",
        }
    }

    /// The mode of that exact name.
    pub fn parse(value: &str) -> (r: Result<RepeatMode, RepeatModeParseError>)
        ensures
            match r {
                Ok(mode) => RepeatMode::named(value@) == Some(mode),
                Err(error) => RepeatMode::named(value@) is None && error.value@ == value@,
            },
    {
        if same_text(value, "off") {
            Ok(RepeatMode::Off)
        } else if same_text(value, "context") {
            Ok(RepeatMode::Context)
        } else if same_text(value, "track") {
            Ok(RepeatMode::Track)
        } else {
            Err(RepeatModeParseError { value: value.to_owned() })
        }
    }

    /// The mode of that name, or `Off` for any other text: a peer may send
    /// anything here, and one unknown mode must not cost the whole message.
    pub fn parse_lenient(value: &str) -> (r: RepeatMode)
        ensures
            r == match RepeatMode::named(value@) {
                Some(mode) => mode,
                None => RepeatMode::Off,
            },
    {
        match RepeatMode::parse(value) {
            Ok(mode) => mode,
            Err(_) => RepeatMode::Off,
        }
    }
}

/// Every repeat mode is found again under its own name.
pub proof fn repeat_mode_names_round_trip(mode: RepeatMode)
    ensures
        RepeatMode::named(mode.name()) == Some(mode),
{
    reveal_strlit("off");
    reveal_strlit("context");
    reveal_strlit("track");
    assert("off"@.len() == 3 && "context"@.len() == 7 && "track"@.len() == 5);
}

/// A text that names no repeat mode.
#[derive(Clone, Debug, PartialEq, Eq)]
pub struct RepeatModeParseError {
    pub value: String,
}

impl RepeatModeParseError {
    pub fn message(&self) -> (r: String)
        ensures
            r@ == "repeat mode `"@ + self.value@ + "` invalid (expected off, context, track)"@,
    {
        concat3(
            "repeat mode `",
            self.value.as_str(),
            "` invalid (expected off, context, track)",
        )
    }
}

// ---------------------------------------------------------------------------
// Album groups and item sources
// ---------------------------------------------------------------------------

/// How an album relates to an artist.
#[derive(Debug, PartialEq, Eq, Hash)]
pub enum AlbumGroup {
    Album,
    Single,
    Compilation,
    AppearsOn,
    Other(String),
}

/// An album group as plain values.
pub enum AlbumGroupModel {
    Album,
    Single,
    Compilation,
    AppearsOn,
    Other(Seq<char>),
}

impl View for AlbumGroup {
    type V = AlbumGroupModel;

    open spec fn view(&self) -> AlbumGroupModel {
        match *self {
            AlbumGroup::Album => AlbumGroupModel::Album,
            AlbumGroup::Single => AlbumGroupModel::Single,
            AlbumGroup::Compilation => AlbumGroupModel::Compilation,
            AlbumGroup::AppearsOn => AlbumGroupModel::AppearsOn,
            AlbumGroup::Other(value) => AlbumGroupModel::Other(value@),
        }
    }
}

impl AlbumGroupModel {
    pub open spec fn name(self) -> Seq<char> {
        match self {
            AlbumGroupModel::Album => "album"@,
            AlbumGroupModel::Single => "single"@,
            AlbumGroupModel::Compilation => "compilation"@,
            AlbumGroupModel::AppearsOn => "appears_on"@,
            AlbumGroupModel::Other(value) => value,
        }
    }

    /// The group of a name; a name that is not known stands for itself.
    pub open spec fn named(s: Seq<char>) -> AlbumGroupModel {
        if s == "album"@ {
            AlbumGroupModel::Album
        } else if s == "single"@ {
            AlbumGroupModel::Single
        } else if s == "compilation"@ {
            AlbumGroupModel::Compilation
        } else if s == "appears_on"@ {
            AlbumGroupModel::AppearsOn
        } else {
            AlbumGroupModel::Other(s)
        }
    }
}

impl Clone for AlbumGroup {
    fn clone(&self) -> (r: Self)
        ensures
            r@ == self@,
    {
        match self {
            AlbumGroup::Album => AlbumGroup::Album,
            AlbumGroup::Single => AlbumGroup::Single,
            AlbumGroup::Compilation => AlbumGroup::Compilation,
            AlbumGroup::AppearsOn => AlbumGroup::AppearsOn,
            AlbumGroup::Other(value) => AlbumGroup::Other(value.clone()),
        }
    }
}

impl AlbumGroup {
    pub fn as_str(&self) -> (r: &str)
        ensures
            r@ == self@.name(),
    {
        match self {
            AlbumGroup::Album => "album",
            AlbumGroup::Single => "single",
            AlbumGroup::Compilation => "compilation",
            AlbumGroup::AppearsOn => "appears_on",
            AlbumGroup::Other(value) => value.as_str(),
        }
    }

    /// The group of a name.
    pub fn from_name(value: &str) -> (r: AlbumGroup)
        ensures
            r@ == AlbumGroupModel::named(value@),
    {
        if same_text(value, "album") {
            AlbumGroup::Album
        } else if same_text(value, "single") {
            AlbumGroup::Single
        } else if same_text(value, "compilation") {
            AlbumGroup::Compilation
        } else if same_text(value, "appears_on") {
            AlbumGroup::AppearsOn
        } else {
            AlbumGroup::Other(value.to_owned())
        }
    }
}

impl From<String> for AlbumGroup {
    fn from(value: String) -> (r: Self) {
        if same_text(value.as_str(), "album") {
            AlbumGroup::Album
        } else if same_text(value.as_str(), "single") {
            AlbumGroup::Single
        } else if same_text(value.as_str(), "compilation") {
            AlbumGroup::Compilation
        } else if same_text(value.as_str(), "appears_on") {
            AlbumGroup::AppearsOn
        } else {
            AlbumGroup::Other(value)
        }
    }
}

impl vstd::std_specs::convert::FromSpecImpl<String> for AlbumGroup {
    open spec fn obeys_from_spec() -> bool {
        true
    }

    open spec fn from_spec(value: String) -> AlbumGroup {
        if value@ == "album"@ {
            AlbumGroup::Album
        } else if value@ == "single"@ {
            AlbumGroup::Single
        } else if value@ == "compilation"@ {
            AlbumGroup::Compilation
        } else if value@ == "appears_on"@ {
            AlbumGroup::AppearsOn
        } else {
            AlbumGroup::Other(value)
        }
    }
}

/// A group read from a name has that name: unknown names are kept.
pub proof fn album_group_keeps_its_name(s: Seq<char>)
    ensures
        AlbumGroupModel::named(s).name() == s,
{
}

/// Where the metadata of an item was obtained.
#[derive(Debug, PartialEq, Eq, Hash)]
pub enum ItemSource {
    Provider(String),
    Mercury,
    Local,
}

/// An item source as plain values.
pub enum ItemSourceModel {
    Provider(Seq<char>),
    Mercury,
    Local,
}

impl View for ItemSource {
    type V = ItemSourceModel;

    open spec fn view(&self) -> ItemSourceModel {
        match *self {
            ItemSource::Provider(provider) => ItemSourceModel::Provider(provider@),
            ItemSource::Mercury => ItemSourceModel::Mercury,
            ItemSource::Local => ItemSourceModel::Local,
        }
    }
}

impl ItemSourceModel {
    pub open spec fn name(self) -> Seq<char> {
        match self {
            ItemSourceModel::Provider(provider) => provider,
            ItemSourceModel::Mercury => "mercury"@,
            ItemSourceModel::Local => "local"@,
        }
    }

    /// The source of a name; any name that is not built in is a provider's.
    pub open spec fn named(s: Seq<char>) -> ItemSourceModel {
        if s == "mercury"@ {
            ItemSourceModel::Mercury
        } else if s == "local"@ {
            ItemSourceModel::Local
        } else {
            ItemSourceModel::Provider(s)
        }
    }
}

impl Clone for ItemSource {
    fn clone(&self) -> (r: Self)
        ensures
            r@ == self@,
    {
        match self {
            ItemSource::Provider(provider) => ItemSource::Provider(provider.clone()),
            ItemSource::Mercury => ItemSource::Mercury,
            ItemSource::Local => ItemSource::Local,
        }
    }
}

impl ItemSource {
    pub fn as_str(&self) -> (r: &str)
        ensures
            r@ == self@.name(),
    {
        match self {
            ItemSource::Provider(provider) => provider.as_str(),
            ItemSource::Mercury => "mercury",
            ItemSource::Local => "local",
        }
    }

    /// The source of a name.
    pub fn from_name(value: &str) -> (r: ItemSource)
        ensures
            r@ == ItemSourceModel::named(value@),
    {
        if same_text(value, "mercury") {
            ItemSource::Mercury
        } else if same_text(value, "local") {
            ItemSource::Local
        } else {
            ItemSource::Provider(value.to_owned())
        }
    }
}

impl From<String> for ItemSource {
    fn from(value: String) -> (r: Self) {
        if same_text(value.as_str(), "mercury") {
            ItemSource::Mercury
        } else if same_text(value.as_str(), "local") {
            ItemSource::Local
        } else {
            ItemSource::Provider(value)
        }
    }
}

impl vstd::std_specs::convert::FromSpecImpl<String> for ItemSource {
    open spec fn obeys_from_spec() -> bool {
        true
    }

    open spec fn from_spec(value: String) -> ItemSource {
        if value@ == "mercury"@ {
            ItemSource::Mercury
        } else if value@ == "local"@ {
            ItemSource::Local
        } else {
            ItemSource::Provider(value)
        }
    }
}

/// A source read from a name has that name.
pub proof fn item_source_keeps_its_name(s: Seq<char>)
    ensures
        ItemSourceModel::named(s).name() == s,
{
}

// ---------------------------------------------------------------------------
// Items
// ---------------------------------------------------------------------------

/// A page of items of some larger list.
#[derive(Clone, Debug, PartialEq, Eq)]
pub struct Page<T> {
    pub items: Vec<T>,
    pub total: u64,
    pub offset: u64,
}

/// An artist by name and URI.
#[derive(Debug, PartialEq)]
pub struct ArtistRef {
    pub name: String,
    pub uri: String,
}

/// An artist reference as plain values.
pub struct ArtistRefModel {
    pub name: Seq<char>,
    pub uri: Seq<char>,
}

impl View for ArtistRef {
    type V = ArtistRefModel;

    open spec fn view(&self) -> ArtistRefModel {
        ArtistRefModel { name: self.name@, uri: self.uri@ }
    }
}

impl Clone for ArtistRef {
    fn clone(&self) -> (r: Self)
        ensures
            r@ == self@,
    {
        ArtistRef { name: self.name.clone(), uri: self.uri.clone() }
    }
}

impl Default for ArtistRef {
    fn default() -> (r: Self)
        ensures
            r@ == (ArtistRefModel { name: Seq::empty(), uri: Seq::empty() }),
    {
        ArtistRef { name: String::new(), uri: String::new() }
    }
}

/// A copy of a list of artist references.
pub fn copy_artists(v: &[ArtistRef]) -> (r: Vec<ArtistRef>)
    ensures
        seq_view(r@) == seq_view(v@),
{
    let mut out: Vec<ArtistRef> = Vec::new();
    let mut i: usize = 0;
    while i < v.len()
        invariant
            i <= v@.len(),
            seq_view(out@) =~= seq_view(v@).take(i as int),
        decreases v@.len() - i,
    {
        out.push(v[i].clone());
        i = i + 1;
    }
    assert(seq_view(out@) =~= seq_view(v@));
    out
}

/// A track, episode, show, album, artist or playlist with its metadata.
#[derive(Debug, PartialEq)]
pub struct MediaItem {
    pub id: Option<String>,
    pub uri: String,
    pub name: String,
    pub subtitle: String,
    pub context: String,
    pub duration_ms: u64,
    pub image_url: Option<String>,
    pub kind: MediaKind,
    pub source: Option<ItemSource>,
    pub freshness: Option<String>,
    pub explicit: Option<bool>,
    pub is_playable: Option<bool>,
    pub album: Option<String>,
    pub added_at_ms: Option<i64>,
    pub resume_position_ms: Option<u64>,
    pub fully_played: Option<bool>,
    pub release_date: Option<ReleaseDate>,
    pub album_group: Option<AlbumGroup>,
    pub in_library: Option<bool>,
    pub album_uri: Option<String>,
    pub artists: Vec<ArtistRef>,
    pub genre: Option<String>,
}

/// A media item as plain values.
pub struct MediaItemModel {
    pub id: Option<Seq<char>>,
    pub uri: Seq<char>,
    pub name: Seq<char>,
    pub subtitle: Seq<char>,
    pub context: Seq<char>,
    pub duration_ms: u64,
    pub image_url: Option<Seq<char>>,
    pub kind: MediaKind,
    pub source: Option<ItemSourceModel>,
    pub freshness: Option<Seq<char>>,
    pub explicit: Option<bool>,
    pub is_playable: Option<bool>,
    pub album: Option<Seq<char>>,
    pub added_at_ms: Option<i64>,
    pub resume_position_ms: Option<u64>,
    pub fully_played: Option<bool>,
    pub release_date: Option<ReleaseDate>,
    pub album_group: Option<AlbumGroupModel>,
    pub in_library: Option<bool>,
    pub album_uri: Option<Seq<char>>,
    pub artists: Seq<ArtistRefModel>,
    pub genre: Option<Seq<char>>,
}

impl View for MediaItem {
    type V = MediaItemModel;

    open spec fn view(&self) -> MediaItemModel {
        MediaItemModel {
            id: opt_text(self.id),
            uri: self.uri@,
            name: self.name@,
            subtitle: self.subtitle@,
            context: self.context@,
            duration_ms: self.duration_ms,
            image_url: opt_text(self.image_url),
            kind: self.kind,
            source: opt_view(self.source),
            freshness: opt_text(self.freshness),
            explicit: self.explicit,
            is_playable: self.is_playable,
            album: opt_text(self.album),
            added_at_ms: self.added_at_ms,
            resume_position_ms: self.resume_position_ms,
            fully_played: self.fully_played,
            release_date: self.release_date,
            album_group: opt_view(self.album_group),
            in_library: self.in_library,
            album_uri: opt_text(self.album_uri),
            artists: seq_view(self.artists@),
            genre: opt_text(self.genre),
        }
    }
}

/// An item of which nothing is known.
pub open spec fn blank_item() -> MediaItemModel {
    MediaItemModel {
        id: None,
        uri: Seq::empty(),
        name: Seq::empty(),
        subtitle: Seq::empty(),
        context: Seq::empty(),
        duration_ms: 0,
        image_url: None,
        kind: MediaKind::Track,
        source: None,
        freshness: None,
        explicit: None,
        is_playable: None,
        album: None,
        added_at_ms: None,
        resume_position_ms: None,
        fully_played: None,
        release_date: None,
        album_group: None,
        in_library: None,
        album_uri: None,
        artists: Seq::empty(),
        genre: None,
    }
}

impl Default for MediaItem {
    fn default() -> (r: Self)
        ensures
            r@ == blank_item(),
    {
        let r = MediaItem {
            id: None,
            uri: String::new(),
            name: String::new(),
            subtitle: String::new(),
            context: String::new(),
            duration_ms: 0,
            image_url: None,
            kind: MediaKind::Track,
            source: None,
            freshness: None,
            explicit: None,
            is_playable: None,
            album: None,
            added_at_ms: None,
            resume_position_ms: None,
            fully_played: None,
            release_date: None,
            album_group: None,
            in_library: None,
            album_uri: None,
            artists: Vec::new(),
            genre: None,
        };
        assert(seq_view(r.artists@) =~= Seq::<ArtistRefModel>::empty());
        r
    }
}

/// A copy of an optional item source.
pub fn copy_source(o: &Option<ItemSource>) -> (r: Option<ItemSource>)
    ensures
        opt_view(r) == opt_view(*o),
{
    match o {
        Some(source) => Some(source.clone()),
        None => None,
    }
}

/// A copy of an optional album group.
pub fn copy_group(o: &Option<AlbumGroup>) -> (r: Option<AlbumGroup>)
    ensures
        opt_view(r) == opt_view(*o),
{
    match o {
        Some(group) => Some(group.clone()),
        None => None,
    }
}

impl Clone for MediaItem {
    fn clone(&self) -> (r: Self)
        ensures
            r@ == self@,
    {
        MediaItem {
            id: copy_opt(&self.id),
            uri: self.uri.clone(),
            name: self.name.clone(),
            subtitle: self.subtitle.clone(),
            context: self.context.clone(),
            duration_ms: self.duration_ms,
            image_url: copy_opt(&self.image_url),
            kind: self.kind,
            source: copy_source(&self.source),
            freshness: copy_opt(&self.freshness),
            explicit: self.explicit,
            is_playable: self.is_playable,
            album: copy_opt(&self.album),
            added_at_ms: self.added_at_ms,
            resume_position_ms: self.resume_position_ms,
            fully_played: self.fully_played,
            release_date: self.release_date,
            album_group: copy_group(&self.album_group),
            in_library: self.in_library,
            album_uri: copy_opt(&self.album_uri),
            artists: copy_artists(self.artists.as_slice()),
            genre: copy_opt(&self.genre),
        }
    }
}

/// A copy of an optional item.
pub fn copy_item(o: &Option<MediaItem>) -> (r: Option<MediaItem>)
    ensures
        opt_view(r) == opt_view(*o),
{
    match o {
        Some(item) => Some(item.clone()),
        None => None,
    }
}

/// A copy of a list of items.
pub fn copy_items(v: &[MediaItem]) -> (r: Vec<MediaItem>)
    ensures
        seq_view(r@) == seq_view(v@),
{
    let mut out: Vec<MediaItem> = Vec::new();
    let mut i: usize = 0;
    while i < v.len()
        invariant
            i <= v@.len(),
            seq_view(out@) =~= seq_view(v@).take(i as int),
        decreases v@.len() - i,
    {
        out.push(v[i].clone());
        i = i + 1;
    }
    assert(seq_view(out@) =~= seq_view(v@));
    out
}

/// The URIs of a list of items.
pub open spec fn item_uris(items: Seq<MediaItemModel>) -> Seq<Seq<char>> {
    Seq::new(items.len(), |i: int| items[i].uri)
}

/// The URIs of a list of items, in order.
pub fn uris_of(items: &[MediaItem]) -> (r: Vec<String>)
    ensures
        texts(r@) == item_uris(seq_view(items@)),
{
    let mut out: Vec<String> = Vec::new();
    let mut i: usize = 0;
    while i < items.len()
        invariant
            i <= items@.len(),
            texts(out@) =~= item_uris(seq_view(items@)).take(i as int),
        decreases items@.len() - i,
    {
        out.push(items[i].uri.clone());
        i = i + 1;
    }
    assert(texts(out@) =~= item_uris(seq_view(items@)));
    out
}

// ---------------------------------------------------------------------------
// Devices, playlists, queues, playback
// ---------------------------------------------------------------------------

/// A device that can play.
#[derive(Debug, PartialEq)]
pub struct Device {
    pub id: Option<String>,
    pub name: String,
    pub kind: String,
    pub is_active: bool,
    pub is_restricted: bool,
    pub volume_percent: Option<u8>,
    pub supports_volume: bool,
}

/// A device as plain values.
pub struct DeviceModel {
    pub id: Option<Seq<char>>,
    pub name: Seq<char>,
    pub kind: Seq<char>,
    pub is_active: bool,
    pub is_restricted: bool,
    pub volume_percent: Option<u8>,
    pub supports_volume: bool,
}

impl View for Device {
    type V = DeviceModel;

    open spec fn view(&self) -> DeviceModel {
        DeviceModel {
            id: opt_text(self.id),
            name: self.name@,
            kind: self.kind@,
            is_active: self.is_active,
            is_restricted: self.is_restricted,
            volume_percent: self.volume_percent,
            supports_volume: self.supports_volume,
        }
    }
}

impl Clone for Device {
    fn clone(&self) -> (r: Self)
        ensures
            r@ == self@,
    {
        Device {
            id: copy_opt(&self.id),
            name: self.name.clone(),
            kind: self.kind.clone(),
            is_active: self.is_active,
            is_restricted: self.is_restricted,
            volume_percent: self.volume_percent,
            supports_volume: self.supports_volume,
        }
    }
}

/// A copy of an optional device.
pub fn copy_device(o: &Option<Device>) -> (r: Option<Device>)
    ensures
        opt_view(r) == opt_view(*o),
{
    match o {
        Some(device) => Some(device.clone()),
        None => None,
    }
}

/// A playlist. `version_token` is an opaque token of the provider that
/// changes whenever the contents do.
#[derive(Debug, PartialEq)]
pub struct Playlist {
    pub id: String,
    pub name: String,
    pub owner: String,
    pub tracks_total: u64,
    pub image_url: Option<String>,
    pub version_token: Option<String>,
}

/// A playlist as plain values.
pub struct PlaylistModel {
    pub id: Seq<char>,
    pub name: Seq<char>,
    pub owner: Seq<char>,
    pub tracks_total: u64,
    pub image_url: Option<Seq<char>>,
    pub version_token: Option<Seq<char>>,
}

impl View for Playlist {
    type V = PlaylistModel;

    open spec fn view(&self) -> PlaylistModel {
        PlaylistModel {
            id: self.id@,
            name: self.name@,
            owner: self.owner@,
            tracks_total: self.tracks_total,
            image_url: opt_text(self.image_url),
            version_token: opt_text(self.version_token),
        }
    }
}

impl Clone for Playlist {
    fn clone(&self) -> (r: Self)
        ensures
            r@ == self@,
    {
        Playlist {
            id: self.id.clone(),
            name: self.name.clone(),
            owner: self.owner.clone(),
            tracks_total: self.tracks_total,
            image_url: copy_opt(&self.image_url),
            version_token: copy_opt(&self.version_token),
        }
    }
}

/// The upcoming items and the one that plays. `as_of_ms` is 0 where the time
/// of the snapshot is not known; `session_active` is false for a snapshot
/// that is served from cache.
#[derive(Debug, PartialEq)]
pub struct Queue {
    pub currently_playing: Option<MediaItem>,
    pub items: Vec<MediaItem>,
    pub session_active: bool,
    pub as_of_ms: i64,
}

/// A queue as plain values.
pub struct QueueModel {
    pub currently_playing: Option<MediaItemModel>,
    pub items: Seq<MediaItemModel>,
    pub session_active: bool,
    pub as_of_ms: i64,
}

impl View for Queue {
    type V = QueueModel;

    open spec fn view(&self) -> QueueModel {
        QueueModel {
            currently_playing: opt_view(self.currently_playing),
            items: seq_view(self.items@),
            session_active: self.session_active,
            as_of_ms: self.as_of_ms,
        }
    }
}

impl Clone for Queue {
    fn clone(&self) -> (r: Self)
        ensures
            r@ == self@,
    {
        Queue {
            currently_playing: copy_item(&self.currently_playing),
            items: copy_items(self.items.as_slice()),
            session_active: self.session_active,
            as_of_ms: self.as_of_ms,
        }
    }
}

impl Default for Queue {
    fn default() -> (r: Self)
        ensures
            r@ == (QueueModel {
                currently_playing: None,
                items: Seq::empty(),
                session_active: false,
                as_of_ms: 0,
            }),
    {
        let r = Queue {
            currently_playing: None,
            items: Vec::new(),
            session_active: false,
            as_of_ms: 0,
        };
        assert(seq_view(r.items@) =~= Seq::<MediaItemModel>::empty());
        r
    }
}

/// How the daemon learned of a playback state, most trusted first.
#[derive(Clone, Copy, Debug, PartialEq, Eq, Structural)]
pub enum PlaybackStateSource {
    PlayerEvent,
    CommandResult,
    RemotePoll,
    Cache,
    RecentFallback,
}

/// Why an account tier keeps the local player from playing.
pub const PREMIUM_REQUIRED_POLICY_REASON: &'static str =
    "account tier does not permit local playback";

/// A snapshot of what plays.
#[derive(Debug, PartialEq)]
pub struct Playback {
    pub item: Option<MediaItem>,
    pub device: Option<Device>,
    pub is_playing: bool,
    pub progress_ms: u64,
    pub shuffle: bool,
    pub repeat: RepeatMode,
    pub sampled_at_ms: Option<i64>,
    pub provider_timestamp_ms: Option<i64>,
    pub source: Option<PlaybackStateSource>,
    pub playback_speed: Option<PlaybackSpeed>,
}

/// A playback snapshot as plain values.
pub struct PlaybackModel {
    pub item: Option<MediaItemModel>,
    pub device: Option<DeviceModel>,
    pub is_playing: bool,
    pub progress_ms: u64,
    pub shuffle: bool,
    pub repeat: RepeatMode,
    pub sampled_at_ms: Option<i64>,
    pub provider_timestamp_ms: Option<i64>,
    pub source: Option<PlaybackStateSource>,
    pub playback_speed: Option<PlaybackSpeed>,
}

impl View for Playback {
    type V = PlaybackModel;

    open spec fn view(&self) -> PlaybackModel {
        PlaybackModel {
            item: opt_view(self.item),
            device: opt_view(self.device),
            is_playing: self.is_playing,
            progress_ms: self.progress_ms,
            shuffle: self.shuffle,
            repeat: self.repeat,
            sampled_at_ms: self.sampled_at_ms,
            provider_timestamp_ms: self.provider_timestamp_ms,
            source: self.source,
            playback_speed: self.playback_speed,
        }
    }
}

impl Clone for Playback {
    fn clone(&self) -> (r: Self)
        ensures
            r@ == self@,
    {
        Playback {
            item: copy_item(&self.item),
            device: copy_device(&self.device),
            is_playing: self.is_playing,
            progress_ms: self.progress_ms,
            shuffle: self.shuffle,
            repeat: self.repeat,
            sampled_at_ms: self.sampled_at_ms,
            provider_timestamp_ms: self.provider_timestamp_ms,
            source: self.source,
            playback_speed: self.playback_speed,
        }
    }
}

/// A snapshot of nothing playing.
pub open spec fn idle_playback() -> PlaybackModel {
    PlaybackModel {
        item: None,
        device: None,
        is_playing: false,
        progress_ms: 0,
        shuffle: false,
        repeat: RepeatMode::Off,
        sampled_at_ms: None,
        provider_timestamp_ms: None,
        source: None,
        playback_speed: None,
    }
}

impl Default for Playback {
    fn default() -> (r: Self)
        ensures
            r@ == idle_playback(),
    {
        Playback {
            item: None,
            device: None,
            is_playing: false,
            progress_ms: 0,
            shuffle: false,
            repeat: RepeatMode::Off,
            sampled_at_ms: None,
            provider_timestamp_ms: None,
            source: None,
            playback_speed: None,
        }
    }
}

/// The names of the kinds of media, each of its own kind and no other.
pub proof fn kinds_have_their_names(s: Seq<char>)
    ensures
        MediaKind::named(s) == Some(MediaKind::Track) <==> s == "track"@,
        MediaKind::named(s) == Some(MediaKind::Episode) <==> s == "episode"@,
        MediaKind::named(s) == Some(MediaKind::Show) <==> s == "show"@,
        MediaKind::named(s) == Some(MediaKind::Album) <==> s == "album"@,
        MediaKind::named(s) == Some(MediaKind::Artist) <==> s == "artist"@,
        MediaKind::named(s) == Some(MediaKind::Playlist) <==> s == "playlist"@,
{
    media_kind_names_round_trip(MediaKind::Track, s);
    media_kind_names_round_trip(MediaKind::Episode, s);
    media_kind_names_round_trip(MediaKind::Show, s);
    media_kind_names_round_trip(MediaKind::Album, s);
    media_kind_names_round_trip(MediaKind::Artist, s);
    media_kind_names_round_trip(MediaKind::Playlist, s);
}

/// The names of the repeat modes; no other text names one.
pub proof fn repeat_modes_have_their_names(s: Seq<char>)
    ensures
        RepeatMode::named(s) == Some(RepeatMode::Off) <==> s == "off"@,
        RepeatMode::named(s) == Some(RepeatMode::Context) <==> s == "context"@,
        RepeatMode::named(s) == Some(RepeatMode::Track) <==> s == "track"@,
        RepeatMode::named(s) is None <==> s != "off"@ && s != "context"@ && s != "track"@,
{
    repeat_mode_names_round_trip(RepeatMode::Off);
    repeat_mode_names_round_trip(RepeatMode::Context);
    repeat_mode_names_round_trip(RepeatMode::Track);
}

/// The groups of albums and the sources of items that are built in have names
/// of their own; every other name is kept as another group, or as that of a
/// provider.
pub proof fn built_in_names_are_known(s: Seq<char>)
    ensures
        AlbumGroupModel::named(s) is Album <==> s == "album"@,
        AlbumGroupModel::named(s) is Other <==> s != "album"@ && s != "single"@ && s
            != "compilation"@ && s != "appears_on"@,
        s == "single"@ ==> AlbumGroupModel::named(s) is Single,
        s == "compilation"@ ==> AlbumGroupModel::named(s) is Compilation,
        s == "appears_on"@ ==> AlbumGroupModel::named(s) is AppearsOn,
        AlbumGroupModel::named(s) matches AlbumGroupModel::Other(kept) ==> kept == s,
        ItemSourceModel::named(s) is Mercury <==> s == "mercury"@,
        ItemSourceModel::named(s) is Local <==> s == "local"@,
        s != "mercury"@ && s != "local"@ ==> ItemSourceModel::named(s)
            == ItemSourceModel::Provider(s),
{
    reveal_strlit("album");
    reveal_strlit("single");
    reveal_strlit("compilation");
    reveal_strlit("appears_on");
    reveal_strlit("mercury");
    reveal_strlit("local");
    assert("album"@.len() == 5 && "single"@.len() == 6 && "compilation"@.len() == 11);
    assert("appears_on"@.len() == 10 && "mercury"@.len() == 7 && "local"@.len() == 5);
}

/// Without anything that plays, playback stands still at the start, without an
/// item, a device, shuffle or repeat.
pub proof fn idle_playback_stands_still()
    ensures
        idle_playback().item is None && idle_playback().device is None,
        !idle_playback().is_playing && idle_playback().progress_ms == 0,
        !idle_playback().shuffle && idle_playback().repeat == RepeatMode::Off,
{
}

} // verus!
