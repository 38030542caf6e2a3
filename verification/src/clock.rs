//! The playback clock: what plays, where, and since when.
//!
//! Progress is read off a base position and the monotonic time that has
//! passed since it was set, so that a reader sees it advance between
//! updates. Times that position the clock (`at_ms`) are milliseconds of a
//! monotonic timer; sample times (`now_ms`, `sampled_at_ms`) are Unix epoch
//! milliseconds.
//!
//! A sample re-seats the clock by the trust of its source: player events
//! before command results before remote polls before caches. A change of
//! track wins whatever its source.

use vstd::prelude::*;
use vstd::string::*;

use crate::media::{
    Device, DeviceModel, MediaItem, MediaItemModel, MediaKind, Playback, PlaybackModel,
    PlaybackStateSource, RepeatMode, blank_item, copy_artists, copy_device, copy_group, copy_item,
    copy_source,
};
use crate::text::{copy_opt, opt_text, opt_view, same_text};
use crate::uri::ResourceUri;

verus! {

/// How far a position tick may be off before it re-seats the clock.
pub const POSITION_DRIFT_THRESHOLD_MS: i64 = 1_500;

/// How long an empty poll must persist before it clears the clock.
pub const NO_ACTIVE_SESSION_CONFIRM_MS: i64 = 10_000;

// ---------------------------------------------------------------------------
// Events
// ---------------------------------------------------------------------------

/// What the local player reports. Only the first six move the clock.
#[derive(Debug)]
pub enum PlayerEvent {
    PlaybackStarted { uri: ResourceUri, position_ms: u32 },
    TrackChanged { uri: ResourceUri, position_ms: u32 },
    PlaybackPaused,
    PlaybackResumed,
    PositionTick { position_ms: u32 },
    EndOfTrack,
    Ready,
    Degraded,
    ProviderPolicy,
    SessionDisconnected,
    Failed,
    PreloadNext,
    VolumeChanged { percent: u8 },
}

/// What a player event does to the clock.
pub enum PlayerEventModel {
    /// The track of that URI plays from that position.
    Playing { uri: Seq<char>, position_ms: u32 },
    Paused,
    Resumed,
    Tick { position_ms: u32 },
    Ended,
    Other,
}

impl View for PlayerEvent {
    type V = PlayerEventModel;

    open spec fn view(&self) -> PlayerEventModel {
        match *self {
            PlayerEvent::PlaybackStarted { uri, position_ms } => PlayerEventModel::Playing {
                uri: uri@.text(),
                position_ms,
            },
            PlayerEvent::TrackChanged { uri, position_ms } => PlayerEventModel::Playing {
                uri: uri@.text(),
                position_ms,
            },
            PlayerEvent::PlaybackPaused => PlayerEventModel::Paused,
            PlayerEvent::PlaybackResumed => PlayerEventModel::Resumed,
            PlayerEvent::PositionTick { position_ms } => PlayerEventModel::Tick { position_ms },
            PlayerEvent::EndOfTrack => PlayerEventModel::Ended,
            _ => PlayerEventModel::Other,
        }
    }
}

// ---------------------------------------------------------------------------
// The state of the clock
// ---------------------------------------------------------------------------

/// The clock as plain values.
pub struct ClockModel {
    pub item: Option<MediaItemModel>,
    pub device: Option<DeviceModel>,
    pub is_playing: bool,
    pub base_progress_ms: u64,
    pub base_at_ms: u64,
    pub provider_timestamp_ms: Option<i64>,
    pub sampled_at_ms: i64,
    pub shuffle: bool,
    pub repeat: RepeatMode,
    pub source: PlaybackStateSource,
    pub first_empty_poll_ms: Option<i64>,
}

/// The playback clock.
#[derive(Debug)]
pub struct PlaybackClock {
    item: Option<MediaItem>,
    device: Option<Device>,
    is_playing: bool,
    base_progress_ms: u64,
    base_at_ms: u64,
    provider_timestamp_ms: Option<i64>,
    sampled_at_ms: i64,
    shuffle: bool,
    repeat: RepeatMode,
    source: PlaybackStateSource,
    first_empty_poll_ms: Option<i64>,
}

impl View for PlaybackClock {
    type V = ClockModel;

    closed spec fn view(&self) -> ClockModel {
        ClockModel {
            item: opt_view(self.item),
            device: opt_view(self.device),
            is_playing: self.is_playing,
            base_progress_ms: self.base_progress_ms,
            base_at_ms: self.base_at_ms,
            provider_timestamp_ms: self.provider_timestamp_ms,
            sampled_at_ms: self.sampled_at_ms,
            shuffle: self.shuffle,
            repeat: self.repeat,
            source: self.source,
            first_empty_poll_ms: self.first_empty_poll_ms,
        }
    }
}

/// A position no later than the end of the item, where its length is known.
pub open spec fn clamped_progress(item: Option<MediaItemModel>, ms: u64) -> u64 {
    match item {
        Some(item) => if item.duration_ms > 0 && ms > item.duration_ms {
            item.duration_ms
        } else {
            ms
        },
        None => ms,
    }
}

/// Two lengths of time added up, as far as the type goes.
pub open spec fn saturated_sum(a: u64, b: u64) -> u64 {
    if a + b > u64::MAX {
        u64::MAX
    } else {
        (a + b) as u64
    }
}

impl ClockModel {
    /// How long ago the base was set; a timer that ran backwards counts as
    /// standing still.
    pub open spec fn elapsed(self, at_ms: u64) -> u64 {
        if at_ms >= self.base_at_ms {
            (at_ms - self.base_at_ms) as u64
        } else {
            0
        }
    }

    /// The position in the item at a time of the monotonic timer.
    pub open spec fn progress(self, at_ms: u64) -> u64 {
        if self.is_playing {
            clamped_progress(self.item, saturated_sum(self.base_progress_ms, self.elapsed(at_ms)))
        } else {
            clamped_progress(self.item, self.base_progress_ms)
        }
    }

    /// Whether anything speaks for a session: something plays, a device is
    /// known, or there is an item that is more than a memory.
    pub open spec fn live(self) -> bool {
        self.is_playing || self.device is Some || (self.item is Some && self.source
            != PlaybackStateSource::RecentFallback)
    }

    /// What readers see at a time of the monotonic timer.
    pub open spec fn snapshot(self, at_ms: u64) -> PlaybackModel {
        PlaybackModel {
            item: self.item,
            device: self.device,
            is_playing: self.is_playing,
            progress_ms: self.progress(at_ms),
            shuffle: self.shuffle,
            repeat: self.repeat,
            sampled_at_ms: Some(self.sampled_at_ms),
            provider_timestamp_ms: self.provider_timestamp_ms,
            source: Some(self.source),
            playback_speed: None,
        }
    }
}

/// A clock that knows nothing.
pub open spec fn empty_clock(at_ms: u64) -> ClockModel {
    ClockModel {
        item: None,
        device: None,
        is_playing: false,
        base_progress_ms: 0,
        base_at_ms: at_ms,
        provider_timestamp_ms: None,
        sampled_at_ms: 0,
        shuffle: false,
        repeat: RepeatMode::Off,
        source: PlaybackStateSource::RecentFallback,
        first_empty_poll_ms: None,
    }
}

// ---------------------------------------------------------------------------
// Metadata
// ---------------------------------------------------------------------------

/// What is known, or else what the other side knows.
pub open spec fn known<T>(a: Option<T>, b: Option<T>) -> Option<T> {
    if a is None {
        b
    } else {
        a
    }
}

/// A text, or else the other side's.
pub open spec fn known_text(a: Seq<char>, b: Seq<char>) -> Seq<char> {
    if a.len() == 0 {
        b
    } else {
        a
    }
}

/// An item with every gap filled from another sample of the same URI. The
/// URI and the kind are never touched, and an item of another URI fills
/// nothing.
pub open spec fn filled_item(target: MediaItemModel, source: MediaItemModel) -> MediaItemModel {
    if target.uri != source.uri {
        target
    } else {
        MediaItemModel {
            id: known(target.id, source.id),
            uri: target.uri,
            name: known_text(target.name, source.name),
            subtitle: known_text(target.subtitle, source.subtitle),
            context: known_text(target.context, source.context),
            duration_ms: if target.duration_ms == 0 {
                source.duration_ms
            } else {
                target.duration_ms
            },
            image_url: known(target.image_url, source.image_url),
            kind: target.kind,
            source: known(target.source, source.source),
            freshness: known(target.freshness, source.freshness),
            explicit: known(target.explicit, source.explicit),
            is_playable: known(target.is_playable, source.is_playable),
            album: known(target.album, source.album),
            added_at_ms: known(target.added_at_ms, source.added_at_ms),
            resume_position_ms: known(target.resume_position_ms, source.resume_position_ms),
            fully_played: known(target.fully_played, source.fully_played),
            release_date: known(target.release_date, source.release_date),
            album_group: known(target.album_group, source.album_group),
            in_library: known(target.in_library, source.in_library),
            album_uri: known(target.album_uri, source.album_uri),
            artists: if target.artists.len() == 0 {
                source.artists
            } else {
                target.artists
            },
            genre: known(target.genre, source.genre),
        }
    }
}

fn fill_text(target: &mut String, source: &String) -> (r: bool)
    ensures
        final(target)@ == known_text(old(target)@, source@),
        r == (final(target)@ != old(target)@),
{
    if target.as_str().is_empty() && !source.as_str().is_empty() {
        *target = source.clone();
        assert(target@.len() != 0);
        true
    } else {
        assert(target@.len() == 0 ==> target@ =~= source@);
        false
    }
}

fn fill_opt_text(target: &mut Option<String>, source: &Option<String>) -> (r: bool)
    ensures
        opt_text(*final(target)) == known(opt_text(*old(target)), opt_text(*source)),
        r == (opt_text(*final(target)) != opt_text(*old(target))),
{
    if target.is_none() && source.is_some() {
        *target = copy_opt(source);
        true
    } else {
        false
    }
}

fn fill_opt<T: Copy>(target: &mut Option<T>, source: &Option<T>) -> (r: bool)
    ensures
        *final(target) == known(*old(target), *source),
        r == (*final(target) != *old(target)),
{
    if target.is_none() && source.is_some() {
        *target = *source;
        true
    } else {
        false
    }
}

/// Fills the gaps of an item from another sample of it, and says whether
/// that changed anything.
pub fn merge_missing_item_metadata(target: &mut MediaItem, source: &MediaItem) -> (r: bool)
    ensures
        final(target)@ == filled_item(old(target)@, source@),
        r == (final(target)@ != old(target)@),
{
    if !same_text(target.uri.as_str(), source.uri.as_str()) {
        return false;
    }
    let ghost before = target@;
    let id = fill_opt_text(&mut target.id, &source.id);
    let name = fill_text(&mut target.name, &source.name);
    let subtitle = fill_text(&mut target.subtitle, &source.subtitle);
    let context = fill_text(&mut target.context, &source.context);
    let duration = target.duration_ms == 0 && source.duration_ms > 0;
    if duration {
        target.duration_ms = source.duration_ms;
    }
    let image = fill_opt_text(&mut target.image_url, &source.image_url);
    let origin = target.source.is_none() && source.source.is_some();
    if origin {
        target.source = copy_source(&source.source);
    }
    let freshness = fill_opt_text(&mut target.freshness, &source.freshness);
    let explicit = fill_opt(&mut target.explicit, &source.explicit);
    let playable = fill_opt(&mut target.is_playable, &source.is_playable);
    let album = fill_opt_text(&mut target.album, &source.album);
    let added = fill_opt(&mut target.added_at_ms, &source.added_at_ms);
    let resume = fill_opt(&mut target.resume_position_ms, &source.resume_position_ms);
    let played = fill_opt(&mut target.fully_played, &source.fully_played);
    let released = fill_opt(&mut target.release_date, &source.release_date);
    let group = target.album_group.is_none() && source.album_group.is_some();
    if group {
        target.album_group = copy_group(&source.album_group);
    }
    let library = fill_opt(&mut target.in_library, &source.in_library);
    let album_uri = fill_opt_text(&mut target.album_uri, &source.album_uri);
    let artists = target.artists.len() == 0 && source.artists.len() > 0;
    if artists {
        target.artists = copy_artists(source.artists.as_slice());
    }
    let genre = fill_opt_text(&mut target.genre, &source.genre);
    proof {
        assert(source@.artists.len() == 0 && before.artists.len() == 0 ==> source@.artists
            =~= before.artists);
        assert(artists ==> target@.artists.len() != before.artists.len());
        assert(target@ == filled_item(before, source@));
    }
    id || name || subtitle || context || duration || image || origin || freshness || explicit
        || playable || album || added || resume || played || released || group || library
        || album_uri || artists || genre
}

/// Fills the gaps of the current item, where there is one.
pub open spec fn filled_current(
    target: Option<MediaItemModel>,
    source: MediaItemModel,
) -> Option<MediaItemModel> {
    match target {
        Some(item) => Some(filled_item(item, source)),
        None => None,
    }
}

fn merge_missing_current_item_metadata(target: &mut Option<MediaItem>, source: &MediaItem) -> (r:
    bool)
    ensures
        opt_view(*final(target)) == filled_current(opt_view(*old(target)), source@),
        r == (opt_view(*final(target)) != opt_view(*old(target))),
{
    match target {
        Some(item) => merge_missing_item_metadata(item, source),
        None => false,
    }
}

// ---------------------------------------------------------------------------
// Transitions
// ---------------------------------------------------------------------------

/// The trust in a source; more is better.
pub open spec fn priority(source: PlaybackStateSource) -> int {
    match source {
        PlaybackStateSource::PlayerEvent => 4,
        PlaybackStateSource::CommandResult => 3,
        PlaybackStateSource::RemotePoll => 2,
        PlaybackStateSource::Cache => 1,
        PlaybackStateSource::RecentFallback => 0,
    }
}

fn source_priority(source: PlaybackStateSource) -> (r: u8)
    ensures
        r == priority(source),
{
    match source {
        PlaybackStateSource::PlayerEvent => 4,
        PlaybackStateSource::CommandResult => 3,
        PlaybackStateSource::RemotePoll => 2,
        PlaybackStateSource::Cache => 1,
        PlaybackStateSource::RecentFallback => 0,
    }
}

/// Whether two optional items are the same track: both absent, or of one URI.
pub open spec fn same_track(a: Option<MediaItemModel>, b: Option<MediaItemModel>) -> bool {
    match (a, b) {
        (Some(a), Some(b)) => a.uri == b.uri,
        (None, None) => true,
        _ => false,
    }
}

fn matches_uri(a: &Option<MediaItem>, b: &Option<MediaItem>) -> (r: bool)
    ensures
        r == same_track(opt_view(*a), opt_view(*b)),
{
    match (a, b) {
        (Some(a), Some(b)) => same_text(a.uri.as_str(), b.uri.as_str()),
        (None, None) => true,
        _ => false,
    }
}

/// Whether a sample shows anything of a session.
pub open spec fn shows_session(playback: PlaybackModel) -> bool {
    playback.item is Some || playback.device is Some || playback.is_playing
}

fn playback_has_live_signal(playback: &Playback) -> (r: bool)
    ensures
        r == shows_session(playback@),
{
    playback.item.is_some() || playback.device.is_some() || playback.is_playing
}

/// The clock as a durable snapshot seeds it.
pub open spec fn seeded(
    playback: PlaybackModel,
    source: PlaybackStateSource,
    sampled_at_ms: i64,
    at_ms: u64,
) -> ClockModel {
    ClockModel {
        item: playback.item,
        device: playback.device,
        is_playing: playback.is_playing,
        base_progress_ms: playback.progress_ms,
        base_at_ms: at_ms,
        provider_timestamp_ms: playback.provider_timestamp_ms,
        sampled_at_ms,
        shuffle: playback.shuffle,
        repeat: playback.repeat,
        source,
        first_empty_poll_ms: None,
    }
}

/// The clock stopped at the position it shows, on the player's word.
pub open spec fn stopped(clock: ClockModel, at_ms: u64, now_ms: i64) -> ClockModel {
    ClockModel {
        base_progress_ms: clock.progress(at_ms),
        base_at_ms: at_ms,
        is_playing: false,
        source: PlaybackStateSource::PlayerEvent,
        sampled_at_ms: now_ms,
        first_empty_poll_ms: None,
        ..clock
    }
}

/// How far two positions are apart.
pub open spec fn distance(a: u64, b: u64) -> int {
    if a >= b {
        a - b
    } else {
        b - a
    }
}

/// The clock after a player event.
pub open spec fn after_event(
    clock: ClockModel,
    event: PlayerEventModel,
    at_ms: u64,
    now_ms: i64,
) -> ClockModel {
    match event {
        PlayerEventModel::Playing { uri, position_ms } => ClockModel {
            item: if clock.item is Some && clock.item->0.uri == uri {
                clock.item
            } else {
                Some(MediaItemModel { uri, ..blank_item() })
            },
            base_progress_ms: position_ms as u64,
            base_at_ms: at_ms,
            is_playing: true,
            source: PlaybackStateSource::PlayerEvent,
            sampled_at_ms: now_ms,
            first_empty_poll_ms: None,
            ..clock
        },
        PlayerEventModel::Paused => stopped(clock, at_ms, now_ms),
        PlayerEventModel::Resumed => ClockModel {
            base_at_ms: at_ms,
            is_playing: true,
            source: PlaybackStateSource::PlayerEvent,
            sampled_at_ms: now_ms,
            first_empty_poll_ms: None,
            ..clock
        },
        PlayerEventModel::Tick { position_ms } => if distance(
            clock.progress(at_ms),
            position_ms as u64,
        ) > POSITION_DRIFT_THRESHOLD_MS {
            ClockModel {
                base_progress_ms: position_ms as u64,
                base_at_ms: at_ms,
                source: PlaybackStateSource::PlayerEvent,
                sampled_at_ms: now_ms,
                first_empty_poll_ms: None,
                ..clock
            }
        } else {
            ClockModel { first_empty_poll_ms: None, ..clock }
        },
        PlayerEventModel::Ended => ClockModel {
            base_progress_ms: if clock.item is Some && clock.item->0.duration_ms > 0 {
                clock.item->0.duration_ms
            } else {
                clock.base_progress_ms
            },
            base_at_ms: at_ms,
            is_playing: false,
            source: PlaybackStateSource::PlayerEvent,
            sampled_at_ms: now_ms,
            first_empty_poll_ms: None,
            ..clock
        },
        PlayerEventModel::Other => clock,
    }
}

/// The clock after the result of a command. A player event that already
/// speaks for the same track keeps its play state and its position.
pub open spec fn after_command(
    clock: ClockModel,
    playback: PlaybackModel,
    sampled_at_ms: i64,
    at_ms: u64,
) -> ClockModel {
    let adopted = ClockModel {
        item: playback.item,
        device: playback.device,
        shuffle: playback.shuffle,
        repeat: playback.repeat,
        first_empty_poll_ms: None,
        ..clock
    };
    if same_track(clock.item, playback.item) && clock.source == PlaybackStateSource::PlayerEvent {
        adopted
    } else {
        ClockModel {
            is_playing: playback.is_playing,
            base_progress_ms: playback.progress_ms,
            base_at_ms: at_ms,
            source: PlaybackStateSource::CommandResult,
            sampled_at_ms,
            ..adopted
        }
    }
}

/// Whether a poll re-seats the clock: another track always does; the same
/// track only over a less trusted or an outdated sample.
pub open spec fn poll_reseats(
    clock: ClockModel,
    playback: PlaybackModel,
    sampled_at_ms: i64,
) -> bool {
    ||| !same_track(clock.item, playback.item)
    ||| priority(PlaybackStateSource::RemotePoll) > priority(clock.source)
    ||| sampled_at_ms - clock.sampled_at_ms > POSITION_DRIFT_THRESHOLD_MS
}

/// The clock after a poll that shows a session.
pub open spec fn after_live_poll(
    clock: ClockModel,
    playback: PlaybackModel,
    sampled_at_ms: i64,
    provider_timestamp_ms: Option<i64>,
    at_ms: u64,
) -> ClockModel {
    if poll_reseats(clock, playback, sampled_at_ms) {
        ClockModel {
            item: playback.item,
            device: playback.device,
            is_playing: playback.is_playing,
            base_progress_ms: playback.progress_ms,
            base_at_ms: at_ms,
            shuffle: playback.shuffle,
            repeat: playback.repeat,
            provider_timestamp_ms,
            source: PlaybackStateSource::RemotePoll,
            sampled_at_ms,
            first_empty_poll_ms: None,
        }
    } else {
        ClockModel {
            item: match playback.item {
                Some(item) => filled_current(clock.item, item),
                None => clock.item,
            },
            provider_timestamp_ms,
            first_empty_poll_ms: None,
            ..clock
        }
    }
}

/// What a clock shows once it is confirmed that there is no session: the
/// item is remembered, paused at its position.
pub open spec fn after_confirmed_silence(
    clock: ClockModel,
    sampled_at_ms: i64,
    provider_timestamp_ms: Option<i64>,
    at_ms: u64,
) -> ClockModel {
    ClockModel {
        item: clock.item,
        device: None,
        is_playing: false,
        base_progress_ms: if clock.item is Some {
            clock.progress(at_ms)
        } else {
            0
        },
        base_at_ms: at_ms,
        provider_timestamp_ms,
        sampled_at_ms,
        shuffle: clock.item is Some && clock.shuffle,
        repeat: if clock.item is Some {
            clock.repeat
        } else {
            RepeatMode::Off
        },
        source: if clock.item is Some {
            PlaybackStateSource::RecentFallback
        } else {
            PlaybackStateSource::RemotePoll
        },
        first_empty_poll_ms: None,
    }
}

/// Whether an empty poll confirms an earlier one: the first one is old
/// enough.
pub open spec fn silence_confirmed(clock: ClockModel, sampled_at_ms: i64) -> bool {
    match clock.first_empty_poll_ms {
        Some(first) => sampled_at_ms - first >= NO_ACTIVE_SESSION_CONFIRM_MS,
        None => false,
    }
}

/// The clock after a poll that shows no session.
pub open spec fn after_empty_poll(
    clock: ClockModel,
    sampled_at_ms: i64,
    provider_timestamp_ms: Option<i64>,
    at_ms: u64,
) -> ClockModel {
    if !clock.live() {
        ClockModel { first_empty_poll_ms: None, provider_timestamp_ms, ..clock }
    } else if clock.first_empty_poll_ms is None {
        ClockModel { first_empty_poll_ms: Some(sampled_at_ms), ..clock }
    } else if !silence_confirmed(clock, sampled_at_ms) {
        clock
    } else {
        after_confirmed_silence(clock, sampled_at_ms, provider_timestamp_ms, at_ms)
    }
}

/// The clock after a poll. One that a mutation overtook changes nothing.
pub open spec fn after_poll(
    clock: ClockModel,
    playback: PlaybackModel,
    captured_seq: u64,
    state_seq: u64,
    sampled_at_ms: i64,
    provider_timestamp_ms: Option<i64>,
    at_ms: u64,
) -> ClockModel {
    if captured_seq != state_seq {
        clock
    } else if shows_session(playback) {
        after_live_poll(clock, playback, sampled_at_ms, provider_timestamp_ms, at_ms)
    } else {
        after_empty_poll(clock, sampled_at_ms, provider_timestamp_ms, at_ms)
    }
}

/// Whether a poll counts as a change: it re-seats the clock, fills a gap of
/// the current item, or ends a session.
pub open spec fn poll_changes(
    clock: ClockModel,
    playback: PlaybackModel,
    captured_seq: u64,
    state_seq: u64,
    sampled_at_ms: i64,
) -> bool {
    &&& captured_seq == state_seq
    &&& if shows_session(playback) {
        poll_reseats(clock, playback, sampled_at_ms) || (playback.item is Some && filled_current(
            clock.item,
            playback.item->0,
        ) != clock.item)
    } else {
        clock.live() && silence_confirmed(clock, sampled_at_ms)
    }
}

/// What is to be stored of a poll before it is applied, if anything.
pub open spec fn poll_candidate(
    clock: ClockModel,
    playback: PlaybackModel,
    sampled_at_ms: i64,
    provider_timestamp_ms: Option<i64>,
    at_ms: u64,
) -> Option<PlaybackModel> {
    if shows_session(playback) {
        Some(playback)
    } else if clock.live() && silence_confirmed(clock, sampled_at_ms) {
        Some(
            PlaybackModel {
                item: clock.item,
                device: None,
                is_playing: false,
                progress_ms: if clock.item is Some {
                    clock.progress(at_ms)
                } else {
                    0
                },
                shuffle: clock.shuffle,
                repeat: clock.repeat,
                sampled_at_ms: Some(sampled_at_ms),
                provider_timestamp_ms,
                source: Some(
                    if clock.item is Some {
                        PlaybackStateSource::RecentFallback
                    } else {
                        PlaybackStateSource::RemotePoll
                    },
                ),
                playback_speed: None,
            },
        )
    } else {
        None
    }
}

/// The clock after a poll was prepared: only the mark of the first empty
/// poll moves.
pub open spec fn after_prepare(
    clock: ClockModel,
    playback: PlaybackModel,
    sampled_at_ms: i64,
) -> ClockModel {
    if shows_session(playback) {
        clock
    } else if !clock.live() {
        ClockModel { first_empty_poll_ms: None, ..clock }
    } else if clock.first_empty_poll_ms is None {
        ClockModel { first_empty_poll_ms: Some(sampled_at_ms), ..clock }
    } else {
        clock
    }
}

/// The clock after a seek.
pub open spec fn after_seek(
    clock: ClockModel,
    position_ms: u64,
    sampled_at_ms: i64,
    at_ms: u64,
) -> ClockModel {
    ClockModel {
        base_progress_ms: clamped_progress(clock.item, position_ms),
        base_at_ms: at_ms,
        source: PlaybackStateSource::CommandResult,
        sampled_at_ms,
        first_empty_poll_ms: None,
        ..clock
    }
}

impl PlaybackClock {
    /// A clock that knows nothing.
    pub fn new(at_ms: u64) -> (r: Self)
        ensures
            r@ == empty_clock(at_ms),
    {
        PlaybackClock {
            item: None,
            device: None,
            is_playing: false,
            base_progress_ms: 0,
            base_at_ms: at_ms,
            provider_timestamp_ms: None,
            sampled_at_ms: 0,
            shuffle: false,
            repeat: RepeatMode::Off,
            source: PlaybackStateSource::RecentFallback,
            first_empty_poll_ms: None,
        }
    }

    fn clamp_to_duration(&self, ms: u64) -> (r: u64)
        ensures
            r == clamped_progress(self@.item, ms),
    {
        match &self.item {
            Some(item) => if item.duration_ms > 0 && ms > item.duration_ms {
                item.duration_ms
            } else {
                ms
            },
            None => ms,
        }
    }

    /// The position in the item at a time of the monotonic timer.
    pub fn current_progress_ms(&self, at_ms: u64) -> (r: u64)
        ensures
            r == self@.progress(at_ms),
    {
        if !self.is_playing {
            return self.clamp_to_duration(self.base_progress_ms);
        }
        let elapsed: u64 = at_ms.saturating_sub(self.base_at_ms);
        self.clamp_to_duration(self.base_progress_ms.saturating_add(elapsed))
    }

    fn has_live_signal(&self) -> (r: bool)
        ensures
            r == self@.live(),
    {
        self.is_playing || self.device.is_some() || (self.item.is_some() && self.source
            != PlaybackStateSource::RecentFallback)
    }

    /// Seeds the clock from a durable snapshot.
    pub fn seed_from_cache(
        &mut self,
        playback: Playback,
        source: PlaybackStateSource,
        sampled_at_ms: i64,
        at_ms: u64,
    )
        ensures
            final(self)@ == seeded(playback@, source, sampled_at_ms, at_ms),
    {
        self.item = playback.item;
        self.device = playback.device;
        self.is_playing = playback.is_playing;
        self.base_progress_ms = playback.progress_ms;
        self.base_at_ms = at_ms;
        self.shuffle = playback.shuffle;
        self.repeat = playback.repeat;
        self.provider_timestamp_ms = playback.provider_timestamp_ms;
        self.sampled_at_ms = sampled_at_ms;
        self.source = source;
        self.first_empty_poll_ms = None;
    }

    /// What plays at a time of the monotonic timer.
    pub fn snapshot(&self, at_ms: u64) -> (r: Playback)
        ensures
            r@ == self@.snapshot(at_ms),
    {
        Playback {
            item: copy_item(&self.item),
            device: copy_device(&self.device),
            is_playing: self.is_playing,
            progress_ms: self.current_progress_ms(at_ms),
            shuffle: self.shuffle,
            repeat: self.repeat,
            sampled_at_ms: Some(self.sampled_at_ms),
            provider_timestamp_ms: self.provider_timestamp_ms,
            source: Some(self.source),
            playback_speed: None,
        }
    }

    fn start_at(&mut self, uri: &ResourceUri, position_ms: u32, at_ms: u64, now_ms: i64)
        ensures
            final(self)@ == after_event(
                old(self)@,
                PlayerEventModel::Playing { uri: uri@.text(), position_ms },
                at_ms,
                now_ms,
            ),
    {
        let text = uri.as_uri();
        let same = match &self.item {
            Some(item) => same_text(item.uri.as_str(), text.as_str()),
            None => false,
        };
        if !same {
            let mut stub = MediaItem::default();
            stub.uri = text;
            self.item = Some(stub);
        }
        self.base_progress_ms = position_ms as u64;
        self.base_at_ms = at_ms;
        self.is_playing = true;
        self.source = PlaybackStateSource::PlayerEvent;
        self.sampled_at_ms = now_ms;
        self.first_empty_poll_ms = None;
    }

    fn stop_at(&mut self, at_ms: u64, now_ms: i64)
        ensures
            final(self)@ == stopped(old(self)@, at_ms, now_ms),
    {
        let frozen: u64 = self.current_progress_ms(at_ms);
        self.base_progress_ms = frozen;
        self.base_at_ms = at_ms;
        self.is_playing = false;
        self.source = PlaybackStateSource::PlayerEvent;
        self.sampled_at_ms = now_ms;
        self.first_empty_poll_ms = None;
    }

    /// Applies an event of the local player, the most trusted source.
    pub fn apply_player_event(&mut self, event: &PlayerEvent, at_ms: u64, now_ms: i64)
        ensures
            final(self)@ == after_event(old(self)@, event@, at_ms, now_ms),
    {
        match event {
            PlayerEvent::PlaybackStarted { uri, position_ms } => {
                self.start_at(uri, *position_ms, at_ms, now_ms);
            },
            PlayerEvent::TrackChanged { uri, position_ms } => {
                self.start_at(uri, *position_ms, at_ms, now_ms);
            },
            PlayerEvent::PlaybackPaused => {
                self.stop_at(at_ms, now_ms);
            },
            PlayerEvent::PlaybackResumed => {
                self.base_at_ms = at_ms;
                self.is_playing = true;
                self.source = PlaybackStateSource::PlayerEvent;
                self.sampled_at_ms = now_ms;
                self.first_empty_poll_ms = None;
            },
            PlayerEvent::PositionTick { position_ms } => {
                self.first_empty_poll_ms = None;
                let shown: u64 = self.current_progress_ms(at_ms);
                let told: u64 = *position_ms as u64;
                let drift: u64 = if shown >= told {
                    shown - told
                } else {
                    told - shown
                };
                if drift > POSITION_DRIFT_THRESHOLD_MS as u64 {
                    self.base_progress_ms = told;
                    self.base_at_ms = at_ms;
                    self.source = PlaybackStateSource::PlayerEvent;
                    self.sampled_at_ms = now_ms;
                }
            },
            PlayerEvent::EndOfTrack => {
                if let Some(item) = &self.item {
                    if item.duration_ms > 0 {
                        self.base_progress_ms = item.duration_ms;
                    }
                }
                self.base_at_ms = at_ms;
                self.is_playing = false;
                self.source = PlaybackStateSource::PlayerEvent;
                self.sampled_at_ms = now_ms;
                self.first_empty_poll_ms = None;
            },
            _ => {},
        }
    }

    /// Stops a clock that runs although no sound comes out, and says whether
    /// it ran.
    pub fn mark_audio_stalled(&mut self, at_ms: u64, now_ms: i64) -> (r: bool)
        ensures
            r == old(self)@.is_playing,
            final(self)@ == if old(self)@.is_playing {
                stopped(old(self)@, at_ms, now_ms)
            } else {
                old(self)@
            },
    {
        if !self.is_playing {
            return false;
        }
        self.stop_at(at_ms, now_ms);
        true
    }

    /// Fills the metadata of the current item from another sample of its
    /// URI, and says whether that changed anything.
    pub fn enrich_current_item(&mut self, item: &MediaItem) -> (r: bool)
        ensures
            r == (filled_current(old(self)@.item, item@) != old(self)@.item),
            final(self)@ == if r {
                ClockModel {
                    item: filled_current(old(self)@.item, item@),
                    first_empty_poll_ms: None,
                    ..old(self)@
                }
            } else {
                old(self)@
            },
    {
        let changed = merge_missing_current_item_metadata(&mut self.item, item);
        if changed {
            self.first_empty_poll_ms = None;
        }
        changed
    }

    /// Sets the volume of the current device; where none is known yet, the
    /// device is what `seed` gives. `seed` runs only then.
    pub fn apply_device_volume<F: FnOnce() -> Option<Device>>(
        &mut self,
        percent: u8,
        seed: F,
        now_ms: i64,
    )
        requires
            old(self)@.device is None ==> seed.requires(()),
        ensures
            match old(self)@.device {
                Some(device) => final(self)@ == (ClockModel {
                    device: Some(DeviceModel { volume_percent: Some(percent), ..device }),
                    sampled_at_ms: now_ms,
                    first_empty_poll_ms: None,
                    ..old(self)@
                }),
                None => exists|seeded: Option<Device>| #[trigger]
                    seed.ensures((), seeded) && final(self)@ == (ClockModel {
                        device: opt_view(seeded),
                        sampled_at_ms: now_ms,
                        first_empty_poll_ms: None,
                        ..old(self)@
                    }),
            },
    {
        match &mut self.device {
            Some(device) => {
                device.volume_percent = Some(percent);
            },
            None => {
                self.device = seed();
            },
        }
        self.sampled_at_ms = now_ms;
        self.first_empty_poll_ms = None;
    }

    /// Applies the playback state that a command came back with.
    pub fn apply_command_result(&mut self, playback: &Playback, sampled_at_ms: i64, at_ms: u64)
        ensures
            final(self)@ == after_command(old(self)@, playback@, sampled_at_ms, at_ms),
    {
        let owned = matches_uri(&self.item, &playback.item) && self.source
            == PlaybackStateSource::PlayerEvent;
        self.item = copy_item(&playback.item);
        self.device = copy_device(&playback.device);
        self.shuffle = playback.shuffle;
        self.repeat = playback.repeat;
        self.first_empty_poll_ms = None;
        if !owned {
            self.is_playing = playback.is_playing;
            self.base_progress_ms = playback.progress_ms;
            self.base_at_ms = at_ms;
            self.source = PlaybackStateSource::CommandResult;
            self.sampled_at_ms = sampled_at_ms;
        }
    }

    fn apply_empty_web_api_poll(
        &mut self,
        sampled_at_ms: i64,
        provider_timestamp_ms: Option<i64>,
        at_ms: u64,
    ) -> (r: bool)
        ensures
            final(self)@ == after_empty_poll(
                old(self)@,
                sampled_at_ms,
                provider_timestamp_ms,
                at_ms,
            ),
            r == (old(self)@.live() && silence_confirmed(old(self)@, sampled_at_ms)),
    {
        if !self.has_live_signal() {
            self.first_empty_poll_ms = None;
            self.provider_timestamp_ms = provider_timestamp_ms;
            return false;
        }
        let first: i64 = match self.first_empty_poll_ms {
            Some(first) => first,
            None => {
                self.first_empty_poll_ms = Some(sampled_at_ms);
                return false;
            },
        };
        if (sampled_at_ms as i128) - (first as i128) < NO_ACTIVE_SESSION_CONFIRM_MS as i128 {
            return false;
        }
        let frozen: u64 = self.current_progress_ms(at_ms);
        if self.item.is_some() {
            self.base_progress_ms = frozen;
            self.source = PlaybackStateSource::RecentFallback;
        } else {
            self.base_progress_ms = 0;
            self.shuffle = false;
            self.repeat = RepeatMode::Off;
            self.source = PlaybackStateSource::RemotePoll;
        }
        self.device = None;
        self.is_playing = false;
        self.base_at_ms = at_ms;
        self.provider_timestamp_ms = provider_timestamp_ms;
        self.sampled_at_ms = sampled_at_ms;
        self.first_empty_poll_ms = None;
        true
    }

    /// Applies a poll of the remote playback state, and says whether the
    /// clock changed.
    pub fn apply_web_api_poll(
        &mut self,
        playback: &Playback,
        captured_seq: u64,
        state_seq: u64,
        sampled_at_ms: i64,
        provider_timestamp_ms: Option<i64>,
        at_ms: u64,
    ) -> (r: bool)
        ensures
            final(self)@ == after_poll(
                old(self)@,
                playback@,
                captured_seq,
                state_seq,
                sampled_at_ms,
                provider_timestamp_ms,
                at_ms,
            ),
            r == poll_changes(old(self)@, playback@, captured_seq, state_seq, sampled_at_ms),
    {
        if captured_seq != state_seq {
            return false;
        }
        if !playback_has_live_signal(playback) {
            return self.apply_empty_web_api_poll(sampled_at_ms, provider_timestamp_ms, at_ms);
        }
        self.first_empty_poll_ms = None;
        if matches_uri(&self.item, &playback.item) {
            let beats_priority = source_priority(PlaybackStateSource::RemotePoll)
                > source_priority(self.source);
            let outdated = (sampled_at_ms as i128) - (self.sampled_at_ms as i128)
                > POSITION_DRIFT_THRESHOLD_MS as i128;
            if !(beats_priority || outdated) {
                let changed = match &playback.item {
                    Some(item) => merge_missing_current_item_metadata(&mut self.item, item),
                    None => false,
                };
                self.provider_timestamp_ms = provider_timestamp_ms;
                return changed;
            }
        }
        self.item = copy_item(&playback.item);
        self.device = copy_device(&playback.device);
        self.is_playing = playback.is_playing;
        self.base_progress_ms = playback.progress_ms;
        self.base_at_ms = at_ms;
        self.shuffle = playback.shuffle;
        self.repeat = playback.repeat;
        self.provider_timestamp_ms = provider_timestamp_ms;
        self.source = PlaybackStateSource::RemotePoll;
        self.sampled_at_ms = sampled_at_ms;
        true
    }

    /// What is to be stored of a poll before it is applied. Readers see no
    /// change: an empty poll only marks when the silence began, and gives a
    /// candidate once the silence is confirmed.
    pub fn prepare_web_api_poll(
        &mut self,
        playback: &Playback,
        sampled_at_ms: i64,
        provider_timestamp_ms: Option<i64>,
        at_ms: u64,
    ) -> (r: Option<Playback>)
        ensures
            opt_view(r) == poll_candidate(
                old(self)@,
                playback@,
                sampled_at_ms,
                provider_timestamp_ms,
                at_ms,
            ),
            final(self)@ == after_prepare(old(self)@, playback@, sampled_at_ms),
    {
        if playback_has_live_signal(playback) {
            return Some(playback.clone());
        }
        if !self.has_live_signal() {
            self.first_empty_poll_ms = None;
            return None;
        }
        let first: i64 = match self.first_empty_poll_ms {
            Some(first) => first,
            None => {
                self.first_empty_poll_ms = Some(sampled_at_ms);
                return None;
            },
        };
        if (sampled_at_ms as i128) - (first as i128) < NO_ACTIVE_SESSION_CONFIRM_MS as i128 {
            return None;
        }
        let frozen: u64 = self.current_progress_ms(at_ms);
        let has_item = self.item.is_some();
        Some(
            Playback {
                item: copy_item(&self.item),
                device: None,
                is_playing: false,
                progress_ms: if has_item {
                    frozen
                } else {
                    0
                },
                shuffle: self.shuffle,
                repeat: self.repeat,
                sampled_at_ms: Some(sampled_at_ms),
                provider_timestamp_ms,
                source: Some(
                    if has_item {
                        PlaybackStateSource::RecentFallback
                    } else {
                        PlaybackStateSource::RemotePoll
                    },
                ),
                playback_speed: None,
            },
        )
    }

    /// Moves to an absolute position, no further than the end of the item.
    pub fn apply_seek(&mut self, position_ms: u64, sampled_at_ms: i64, at_ms: u64)
        ensures
            final(self)@ == after_seek(old(self)@, position_ms, sampled_at_ms, at_ms),
    {
        self.base_progress_ms = self.clamp_to_duration(position_ms);
        self.base_at_ms = at_ms;
        self.source = PlaybackStateSource::CommandResult;
        self.sampled_at_ms = sampled_at_ms;
        self.first_empty_poll_ms = None;
    }
}

// ---------------------------------------------------------------------------
// Laws
// ---------------------------------------------------------------------------

/// The position shown never runs past the end of an item of known length.
pub proof fn progress_stays_within_the_item(clock: ClockModel, at_ms: u64)
    ensures
        clock.item is Some && clock.item->0.duration_ms > 0 ==> clock.progress(at_ms)
            <= clock.item->0.duration_ms,
{
}

/// A paused clock shows one position at all times.
pub proof fn paused_progress_is_frozen(clock: ClockModel, at_ms: u64, later_ms: u64)
    requires
        !clock.is_playing,
    ensures
        clock.progress(later_ms) == clock.progress(at_ms),
{
}

/// Shown progress never runs backwards between updates.
pub proof fn progress_is_monotone(clock: ClockModel, at_ms: u64, later_ms: u64)
    requires
        at_ms <= later_ms,
    ensures
        clock.progress(at_ms) <= clock.progress(later_ms),
{
}

/// While the clock runs and the end of the item is not reached, progress
/// advances by exactly the time that passes.
pub proof fn running_progress_keeps_time(clock: ClockModel, at_ms: u64, later_ms: u64)
    requires
        clock.is_playing,
        clock.base_at_ms <= at_ms <= later_ms,
        clock.base_progress_ms + (later_ms - clock.base_at_ms) <= u64::MAX,
        clock.item is Some && clock.item->0.duration_ms > 0 ==> clock.base_progress_ms + (later_ms
            - clock.base_at_ms) <= clock.item->0.duration_ms,
    ensures
        clock.progress(later_ms) - clock.progress(at_ms) == later_ms - at_ms,
{
}

/// Pausing freezes the clock at the position that it showed, and resuming
/// goes on from there however long the pause was.
pub proof fn pause_and_resume_keep_the_position(
    clock: ClockModel,
    paused_at: u64,
    resumed_at: u64,
    now_ms: i64,
    later_ms: i64,
)
    ensures
        ({
            let paused = after_event(clock, PlayerEventModel::Paused, paused_at, now_ms);
            let resumed = after_event(paused, PlayerEventModel::Resumed, resumed_at, later_ms);
            &&& !paused.is_playing
            &&& paused.progress(resumed_at) == clock.progress(paused_at)
            &&& resumed.is_playing
            &&& resumed.progress(resumed_at) == clock.progress(paused_at)
            &&& resumed.item == clock.item
        }),
{
}

/// A player event decides the play state whatever was known before, except a
/// tick, which only ever moves the position.
pub proof fn player_events_have_the_last_word(
    clock: ClockModel,
    event: PlayerEventModel,
    at_ms: u64,
    now_ms: i64,
)
    ensures
        event is Playing || event is Resumed ==> after_event(
            clock,
            event,
            at_ms,
            now_ms,
        ).is_playing,
        event is Paused || event is Ended ==> !after_event(clock, event, at_ms, now_ms).is_playing,
        event is Tick || event is Other ==> after_event(clock, event, at_ms, now_ms).is_playing
            == clock.is_playing,
        event is Playing ==> after_event(clock, event, at_ms, now_ms).item is Some && after_event(
            clock,
            event,
            at_ms,
            now_ms,
        ).item->0.uri == event->uri,
        !(event is Tick || event is Other) ==> after_event(clock, event, at_ms, now_ms).source
            == PlaybackStateSource::PlayerEvent,
{
}

/// A tick within the threshold leaves what is shown alone; one beyond it
/// sets the position, up to the end of the item.
pub proof fn ticks_correct_only_real_drift(
    clock: ClockModel,
    position_ms: u32,
    at_ms: u64,
    now_ms: i64,
)
    ensures
        ({
            let ticked = after_event(
                clock,
                PlayerEventModel::Tick { position_ms },
                at_ms,
                now_ms,
            );
            if distance(clock.progress(at_ms), position_ms as u64) > POSITION_DRIFT_THRESHOLD_MS {
                ticked.progress(at_ms) == clamped_progress(clock.item, position_ms as u64)
            } else {
                forall|t: u64| ticked.snapshot(t) == clock.snapshot(t)
            }
        }),
{
}

/// A poll that a mutation overtook changes nothing.
pub proof fn overtaken_polls_change_nothing(
    clock: ClockModel,
    playback: PlaybackModel,
    captured_seq: u64,
    state_seq: u64,
    sampled_at_ms: i64,
    provider_timestamp_ms: Option<i64>,
    at_ms: u64,
)
    requires
        captured_seq != state_seq,
    ensures
        after_poll(
            clock,
            playback,
            captured_seq,
            state_seq,
            sampled_at_ms,
            provider_timestamp_ms,
            at_ms,
        ) == clock,
        !poll_changes(clock, playback, captured_seq, state_seq, sampled_at_ms),
{
}

/// A poll of another track is adopted, whoever spoke last.
pub proof fn another_track_always_wins(
    clock: ClockModel,
    playback: PlaybackModel,
    seq: u64,
    sampled_at_ms: i64,
    provider_timestamp_ms: Option<i64>,
    at_ms: u64,
)
    requires
        playback.item is Some,
        !same_track(clock.item, playback.item),
    ensures
        ({
            let polled = after_poll(
                clock,
                playback,
                seq,
                seq,
                sampled_at_ms,
                provider_timestamp_ms,
                at_ms,
            );
            &&& polled.item == playback.item
            &&& polled.is_playing == playback.is_playing
            &&& polled.progress(at_ms) == clamped_progress(playback.item, playback.progress_ms)
            &&& polled.source == PlaybackStateSource::RemotePoll
        }),
        poll_changes(clock, playback, seq, seq, sampled_at_ms),
{
}

/// A poll of the same track leaves the play state and the position to a
/// sample that is no less trusted and recent enough; it fills gaps of the
/// metadata at most.
pub proof fn trusted_samples_outlast_polls(
    clock: ClockModel,
    playback: PlaybackModel,
    seq: u64,
    sampled_at_ms: i64,
    provider_timestamp_ms: Option<i64>,
    at_ms: u64,
)
    requires
        playback.item is Some,
        same_track(clock.item, playback.item),
        priority(clock.source) >= priority(PlaybackStateSource::RemotePoll),
        sampled_at_ms - clock.sampled_at_ms <= POSITION_DRIFT_THRESHOLD_MS,
    ensures
        ({
            let polled = after_poll(
                clock,
                playback,
                seq,
                seq,
                sampled_at_ms,
                provider_timestamp_ms,
                at_ms,
            );
            &&& polled.is_playing == clock.is_playing
            &&& polled.base_progress_ms == clock.base_progress_ms
            &&& polled.base_at_ms == clock.base_at_ms
            &&& polled.source == clock.source
            &&& polled.device == clock.device
            &&& polled.item == filled_current(clock.item, playback.item->0)
            &&& clock.item->0.duration_ms > 0 ==> polled.progress(at_ms) == clock.progress(at_ms)
        }),
{
}

/// The result of a command does not move a track that a player event speaks
/// for, though it may bring another device or mode.
pub proof fn player_events_outlast_command_results(
    clock: ClockModel,
    playback: PlaybackModel,
    sampled_at_ms: i64,
    at_ms: u64,
)
    requires
        clock.source == PlaybackStateSource::PlayerEvent,
        same_track(clock.item, playback.item),
    ensures
        ({
            let applied = after_command(clock, playback, sampled_at_ms, at_ms);
            &&& applied.is_playing == clock.is_playing
            &&& applied.base_progress_ms == clock.base_progress_ms
            &&& applied.base_at_ms == clock.base_at_ms
            &&& applied.source == clock.source
            &&& applied.device == playback.device
            &&& applied.shuffle == playback.shuffle
            &&& applied.repeat == playback.repeat
        }),
{
}

/// The first empty poll, and every one until the silence is confirmed, is
/// passed over: readers of a live clock see no change.
pub proof fn transient_silence_is_ignored(
    clock: ClockModel,
    playback: PlaybackModel,
    seq: u64,
    sampled_at_ms: i64,
    provider_timestamp_ms: Option<i64>,
    at_ms: u64,
    t: u64,
)
    requires
        clock.live(),
        !shows_session(playback),
        !silence_confirmed(clock, sampled_at_ms),
    ensures
        after_poll(
            clock,
            playback,
            seq,
            seq,
            sampled_at_ms,
            provider_timestamp_ms,
            at_ms,
        ).snapshot(t) == clock.snapshot(t),
        !poll_changes(clock, playback, seq, seq, sampled_at_ms),
{
}

/// Two empty polls far enough apart, with nothing between them, stop a live
/// clock: the item is remembered at its position, and a third empty poll
/// changes nothing that readers see but the provider's timestamp.
pub proof fn confirmed_silence_remembers_the_item(
    clock: ClockModel,
    playback: PlaybackModel,
    seq: u64,
    first_ms: i64,
    second_ms: i64,
    third_ms: i64,
    stamp: Option<i64>,
    at_ms: u64,
    later_ms: u64,
    t: u64,
)
    requires
        clock.live(),
        clock.item is Some,
        clock.first_empty_poll_ms is None,
        !shows_session(playback),
        second_ms - first_ms >= NO_ACTIVE_SESSION_CONFIRM_MS,
    ensures
        ({
            let once = after_poll(clock, playback, seq, seq, first_ms, stamp, at_ms);
            let twice = after_poll(once, playback, seq, seq, second_ms, stamp, later_ms);
            let thrice = after_poll(twice, playback, seq, seq, third_ms, stamp, later_ms);
            &&& poll_changes(once, playback, seq, seq, second_ms)
            &&& twice.item == clock.item
            &&& twice.device is None
            &&& !twice.is_playing
            &&& twice.progress(t) == clock.progress(later_ms)
            &&& twice.source == PlaybackStateSource::RecentFallback
            &&& !poll_changes(twice, playback, seq, seq, third_ms)
            &&& thrice.snapshot(t) == twice.snapshot(t)
        }),
{
}

/// Preparing a poll shows readers nothing, and what it hands out to be
/// stored for an item is what the clock shows once the poll is applied.
pub proof fn prepared_polls_are_applied_as_stored(
    clock: ClockModel,
    playback: PlaybackModel,
    seq: u64,
    sampled_at_ms: i64,
    stamp: Option<i64>,
    at_ms: u64,
    t: u64,
)
    requires
        !shows_session(playback),
    ensures
        after_prepare(clock, playback, sampled_at_ms).snapshot(t) == clock.snapshot(t),
        clock.item is Some ==> match poll_candidate(clock, playback, sampled_at_ms, stamp, at_ms) {
            Some(candidate) => after_poll(
                after_prepare(clock, playback, sampled_at_ms),
                playback,
                seq,
                seq,
                sampled_at_ms,
                stamp,
                at_ms,
            ).snapshot(t) == candidate,
            None => !poll_changes(
                after_prepare(clock, playback, sampled_at_ms),
                playback,
                seq,
                seq,
                sampled_at_ms,
            ),
        },
{
}

/// After a seek the clock shows the position asked for, up to the end of the
/// item, whether it runs or not.
pub proof fn seeks_land_where_asked(
    clock: ClockModel,
    position_ms: u64,
    sampled_at_ms: i64,
    at_ms: u64,
)
    ensures
        after_seek(clock, position_ms, sampled_at_ms, at_ms).progress(at_ms) == clamped_progress(
            clock.item,
            position_ms,
        ),
        after_seek(clock, position_ms, sampled_at_ms, at_ms).is_playing == clock.is_playing,
{
}

/// Filling gaps keeps everything that is known, is done after one pass, and
/// never confuses two URIs.
pub proof fn filling_metadata_only_fills_gaps(target: MediaItemModel, source: MediaItemModel)
    ensures
        filled_item(filled_item(target, source), source) == filled_item(target, source),
        filled_item(target, source).uri == target.uri,
        filled_item(target, source).kind == target.kind,
        target.uri != source.uri ==> filled_item(target, source) == target,
        target.id is Some ==> filled_item(target, source).id == target.id,
        target.name.len() > 0 ==> filled_item(target, source).name == target.name,
        target.subtitle.len() > 0 ==> filled_item(target, source).subtitle == target.subtitle,
        target.context.len() > 0 ==> filled_item(target, source).context == target.context,
        target.duration_ms > 0 ==> filled_item(target, source).duration_ms == target.duration_ms,
        target.image_url is Some ==> filled_item(target, source).image_url == target.image_url,
        target.source is Some ==> filled_item(target, source).source == target.source,
        target.freshness is Some ==> filled_item(target, source).freshness == target.freshness,
        target.explicit is Some ==> filled_item(target, source).explicit == target.explicit,
        target.is_playable is Some ==> filled_item(target, source).is_playable
            == target.is_playable,
        target.album is Some ==> filled_item(target, source).album == target.album,
        target.added_at_ms is Some ==> filled_item(target, source).added_at_ms
            == target.added_at_ms,
        target.resume_position_ms is Some ==> filled_item(target, source).resume_position_ms
            == target.resume_position_ms,
        target.fully_played is Some ==> filled_item(target, source).fully_played
            == target.fully_played,
        target.release_date is Some ==> filled_item(target, source).release_date
            == target.release_date,
        target.album_group is Some ==> filled_item(target, source).album_group
            == target.album_group,
        target.in_library is Some ==> filled_item(target, source).in_library == target.in_library,
        target.album_uri is Some ==> filled_item(target, source).album_uri == target.album_uri,
        target.artists.len() > 0 ==> filled_item(target, source).artists == target.artists,
        target.genre is Some ==> filled_item(target, source).genre == target.genre,
{
}

// ---------------------------------------------------------------------------
// Laws of what is shown
// ---------------------------------------------------------------------------

/// A snapshot shows what the clock holds. The position is the base and the
/// time that it ran since, stopped by the end of an item of known length and
/// by the end of the type, and by nothing else.
pub proof fn snapshots_show_the_clock(clock: ClockModel, at_ms: u64)
    ensures
        ({
            let shown = clock.snapshot(at_ms);
            let ran = if clock.is_playing && at_ms > clock.base_at_ms {
                at_ms - clock.base_at_ms
            } else {
                0
            };
            let known = clock.item is Some && clock.item->0.duration_ms > 0;
            &&& shown.item == clock.item
            &&& shown.device == clock.device
            &&& shown.is_playing == clock.is_playing
            &&& shown.shuffle == clock.shuffle
            &&& shown.repeat == clock.repeat
            &&& shown.sampled_at_ms == Some(clock.sampled_at_ms)
            &&& shown.provider_timestamp_ms == clock.provider_timestamp_ms
            &&& shown.source == Some(clock.source)
            &&& shown.playback_speed is None
            &&& shown.progress_ms == clock.progress(at_ms)
            &&& shown.progress_ms <= clock.base_progress_ms + ran
            &&& known ==> shown.progress_ms <= clock.item->0.duration_ms
            &&& shown.progress_ms == clock.base_progress_ms + ran || (known && shown.progress_ms
                == clock.item->0.duration_ms) || shown.progress_ms == u64::MAX
        }),
{
}

/// A new clock shows nothing, and a seeded one shows what it was seeded with.
pub proof fn seeds_are_shown(
    playback: PlaybackModel,
    source: PlaybackStateSource,
    sampled_at_ms: i64,
    at_ms: u64,
)
    ensures
        ({
            let empty = empty_clock(at_ms).snapshot(at_ms);
            let shown = seeded(playback, source, sampled_at_ms, at_ms).snapshot(at_ms);
            let known = playback.item is Some && playback.item->0.duration_ms > 0;
            &&& empty.item is None && empty.device is None && !empty.is_playing
            &&& empty.progress_ms == 0 && !empty.shuffle && empty.repeat == RepeatMode::Off
            &&& empty.source == Some(PlaybackStateSource::RecentFallback) && empty.sampled_at_ms
                == Some(0i64) && empty.provider_timestamp_ms is None
            &&& empty_clock(at_ms).first_empty_poll_ms is None
            &&& shown.item == playback.item
            &&& shown.device == playback.device
            &&& shown.is_playing == playback.is_playing
            &&& shown.shuffle == playback.shuffle
            &&& shown.repeat == playback.repeat
            &&& shown.provider_timestamp_ms == playback.provider_timestamp_ms
            &&& shown.sampled_at_ms == Some(sampled_at_ms)
            &&& shown.source == Some(source)
            &&& !known || playback.progress_ms <= playback.item->0.duration_ms
                ==> shown.progress_ms == playback.progress_ms
            &&& known && playback.progress_ms > playback.item->0.duration_ms
                ==> shown.progress_ms == playback.item->0.duration_ms
            &&& seeded(playback, source, sampled_at_ms, at_ms).first_empty_poll_ms is None
        }),
{
}

/// A poll that shows a session takes the clock over, where it is of another
/// track, or of the same track over a cached or remembered sample or over one
/// that is more than a second and a half older: everything that readers see is
/// then what the poll says, from its position on. It counts as a change.
pub proof fn polls_that_take_over_are_shown(
    clock: ClockModel,
    playback: PlaybackModel,
    seq: u64,
    sampled_at_ms: i64,
    stamp: Option<i64>,
    at_ms: u64,
    later_ms: u64,
)
    requires
        playback.item is Some || playback.device is Some || playback.is_playing,
        clock.source == PlaybackStateSource::Cache || clock.source
            == PlaybackStateSource::RecentFallback || sampled_at_ms - clock.sampled_at_ms > 1_500
            || (clock.item is Some) != (playback.item is Some) || (clock.item is Some
            && clock.item->0.uri != playback.item->0.uri),
        at_ms <= later_ms,
    ensures
        ({
            let polled = after_poll(clock, playback, seq, seq, sampled_at_ms, stamp, at_ms);
            let shown = polled.snapshot(at_ms);
            let then = polled.snapshot(later_ms);
            let known = playback.item is Some && playback.item->0.duration_ms > 0;
            let end = playback.item->0.duration_ms;
            &&& shown.item == playback.item
            &&& shown.device == playback.device
            &&& shown.is_playing == playback.is_playing
            &&& shown.shuffle == playback.shuffle
            &&& shown.repeat == playback.repeat
            &&& shown.provider_timestamp_ms == stamp
            &&& shown.sampled_at_ms == Some(sampled_at_ms)
            &&& shown.source == Some(PlaybackStateSource::RemotePoll)
            &&& !known || playback.progress_ms <= end ==> shown.progress_ms == playback.progress_ms
            &&& known && playback.progress_ms > end ==> shown.progress_ms == end
            &&& !playback.is_playing ==> then.progress_ms == shown.progress_ms
            &&& playback.is_playing && playback.progress_ms + (later_ms - at_ms) <= u64::MAX && (
            !known || playback.progress_ms + (later_ms - at_ms) <= end) ==> then.progress_ms
                == playback.progress_ms + (later_ms - at_ms)
            &&& polled.first_empty_poll_ms is None
            &&& poll_changes(clock, playback, seq, seq, sampled_at_ms)
        }),
{
}

/// A poll of the same track does not move what a player event, a command or
/// another poll said up to a second and a half before it. Only gaps of the
/// metadata are filled, which alone counts as a change.
pub proof fn polls_do_not_move_recent_samples(
    clock: ClockModel,
    playback: PlaybackModel,
    seq: u64,
    sampled_at_ms: i64,
    stamp: Option<i64>,
    at_ms: u64,
)
    requires
        playback.item is Some || playback.device is Some || playback.is_playing,
        clock.source == PlaybackStateSource::PlayerEvent || clock.source
            == PlaybackStateSource::CommandResult || clock.source
            == PlaybackStateSource::RemotePoll,
        sampled_at_ms - clock.sampled_at_ms <= 1_500,
        (clock.item is Some) == (playback.item is Some),
        clock.item is Some ==> clock.item->0.uri == playback.item->0.uri,
    ensures
        ({
            let polled = after_poll(clock, playback, seq, seq, sampled_at_ms, stamp, at_ms);
            &&& polled.device == clock.device
            &&& polled.is_playing == clock.is_playing
            &&& polled.base_progress_ms == clock.base_progress_ms
            &&& polled.base_at_ms == clock.base_at_ms
            &&& polled.shuffle == clock.shuffle
            &&& polled.repeat == clock.repeat
            &&& polled.source == clock.source
            &&& polled.sampled_at_ms == clock.sampled_at_ms
            &&& polled.provider_timestamp_ms == stamp
            &&& polled.first_empty_poll_ms is None
            &&& clock.item is None ==> polled.item is None
            &&& clock.item is Some ==> polled.item == Some(
                filled_item(clock.item->0, playback.item->0),
            )
            &&& poll_changes(clock, playback, seq, seq, sampled_at_ms) == (polled.item
                != clock.item)
        }),
{
}

/// An empty poll of a live clock only marks when the silence began. Ten seconds
/// after that mark, and not before, another one stops the clock: an item is
/// remembered at the position that it showed, and without one nothing is left.
pub proof fn empty_polls_stop_the_clock_after_ten_seconds(
    clock: ClockModel,
    playback: PlaybackModel,
    seq: u64,
    sampled_at_ms: i64,
    stamp: Option<i64>,
    at_ms: u64,
    t: u64,
)
    requires
        playback.item is None && playback.device is None && !playback.is_playing,
        clock.is_playing || clock.device is Some || (clock.item is Some && clock.source
            != PlaybackStateSource::RecentFallback),
    ensures
        ({
            let polled = after_poll(clock, playback, seq, seq, sampled_at_ms, stamp, at_ms);
            let changes = poll_changes(clock, playback, seq, seq, sampled_at_ms);
            match clock.first_empty_poll_ms {
                None => {
                    &&& polled.first_empty_poll_ms == Some(sampled_at_ms)
                    &&& polled.snapshot(t) == clock.snapshot(t)
                    &&& !changes
                },
                Some(first) => if sampled_at_ms - first < 10_000 {
                    &&& polled.first_empty_poll_ms == Some(first)
                    &&& polled.snapshot(t) == clock.snapshot(t)
                    &&& !changes
                } else {
                    &&& changes
                    &&& polled.item == clock.item
                    &&& polled.device is None
                    &&& !polled.is_playing
                    &&& polled.sampled_at_ms == sampled_at_ms
                    &&& polled.provider_timestamp_ms == stamp
                    &&& polled.first_empty_poll_ms is None
                    &&& clock.item is Some ==> polled.progress(t) == clock.progress(at_ms)
                        && polled.shuffle == clock.shuffle && polled.repeat == clock.repeat
                        && polled.source == PlaybackStateSource::RecentFallback
                    &&& clock.item is None ==> polled.progress(t) == 0 && !polled.shuffle
                        && polled.repeat == RepeatMode::Off && polled.source
                        == PlaybackStateSource::RemotePoll
                },
            }
        }),
{
}

/// An empty poll of a clock that shows no session changes nothing but the
/// provider's timestamp, however often it comes.
pub proof fn empty_polls_leave_an_idle_clock_alone(
    clock: ClockModel,
    playback: PlaybackModel,
    seq: u64,
    sampled_at_ms: i64,
    stamp: Option<i64>,
    at_ms: u64,
)
    requires
        playback.item is None && playback.device is None && !playback.is_playing,
        !clock.is_playing && clock.device is None,
        clock.item is Some ==> clock.source == PlaybackStateSource::RecentFallback,
    ensures
        ({
            let polled = after_poll(clock, playback, seq, seq, sampled_at_ms, stamp, at_ms);
            &&& polled.first_empty_poll_ms is None
            &&& polled.provider_timestamp_ms == stamp
            &&& polled == (ClockModel {
                first_empty_poll_ms: None,
                provider_timestamp_ms: stamp,
                ..clock
            })
            &&& !poll_changes(clock, playback, seq, seq, sampled_at_ms)
            &&& poll_candidate(clock, playback, sampled_at_ms, stamp, at_ms) is None
        }),
{
}

/// What is stored of a poll before it is applied: the poll itself where it
/// shows a session; of silence nothing until it lasted ten seconds, and then
/// the item, paused at its position without a device.
pub proof fn candidates_are_polls_or_confirmed_silence(
    clock: ClockModel,
    playback: PlaybackModel,
    sampled_at_ms: i64,
    stamp: Option<i64>,
    at_ms: u64,
)
    ensures
        ({
            let empty = playback.item is None && playback.device is None && !playback.is_playing;
            let candidate = poll_candidate(clock, playback, sampled_at_ms, stamp, at_ms);
            let live = clock.is_playing || clock.device is Some || (clock.item is Some
                && clock.source != PlaybackStateSource::RecentFallback);
            &&& !empty ==> candidate == Some(playback) && after_prepare(
                clock,
                playback,
                sampled_at_ms,
            ) == clock
            &&& empty ==> (candidate is Some <==> live && clock.first_empty_poll_ms is Some
                && sampled_at_ms - clock.first_empty_poll_ms->0 >= 10_000)
            &&& empty && candidate is Some ==> {
                &&& candidate->0.item == clock.item
                &&& candidate->0.device is None
                &&& !candidate->0.is_playing
                &&& candidate->0.shuffle == clock.shuffle
                &&& candidate->0.repeat == clock.repeat
                &&& candidate->0.sampled_at_ms == Some(sampled_at_ms)
                &&& candidate->0.provider_timestamp_ms == stamp
                &&& candidate->0.playback_speed is None
                &&& clock.item is Some ==> candidate->0.progress_ms == clock.progress(at_ms)
                    && candidate->0.source == Some(PlaybackStateSource::RecentFallback)
                &&& clock.item is None ==> candidate->0.progress_ms == 0 && candidate->0.source
                    == Some(PlaybackStateSource::RemotePoll)
            }
            &&& empty && live && clock.first_empty_poll_ms is None ==> after_prepare(
                clock,
                playback,
                sampled_at_ms,
            ).first_empty_poll_ms == Some(sampled_at_ms)
            &&& empty && live && clock.first_empty_poll_ms is Some ==> after_prepare(
                clock,
                playback,
                sampled_at_ms,
            ) == clock
        }),
{
}

/// What a player event does not speak of stays as it is, and every event but a
/// tick within the threshold and one that does not move the clock is stamped as
/// the player's.
pub proof fn player_events_keep_the_rest(
    clock: ClockModel,
    event: PlayerEventModel,
    at_ms: u64,
    now_ms: i64,
)
    ensures
        ({
            let told = after_event(clock, event, at_ms, now_ms);
            &&& told.device == clock.device
            &&& told.shuffle == clock.shuffle
            &&& told.repeat == clock.repeat
            &&& told.provider_timestamp_ms == clock.provider_timestamp_ms
            &&& !(event is Playing) ==> told.item == clock.item
            &&& event is Other ==> told == clock
            &&& !(event is Other) ==> told.first_empty_poll_ms is None
            &&& !(event is Other) && !(event is Tick) ==> told.sampled_at_ms == now_ms
                && told.source == PlaybackStateSource::PlayerEvent
        }),
{
}

/// A track that starts plays from the position that the player tells. Its
/// metadata is kept where it is the current item, and is empty where it is not.
pub proof fn started_tracks_play_from_their_position(
    clock: ClockModel,
    uri: Seq<char>,
    position_ms: u32,
    at_ms: u64,
    later_ms: u64,
    now_ms: i64,
)
    requires
        at_ms <= later_ms,
    ensures
        ({
            let told = after_event(
                clock,
                PlayerEventModel::Playing { uri, position_ms },
                at_ms,
                now_ms,
            );
            let current = clock.item is Some && clock.item->0.uri == uri;
            let end = clock.item->0.duration_ms;
            let run = position_ms + (later_ms - at_ms);
            &&& told.is_playing
            &&& told.item is Some && told.item->0.uri == uri
            &&& current ==> told.item == clock.item
            &&& !current ==> told.item->0.name.len() == 0 && told.item->0.subtitle.len() == 0
                && told.item->0.duration_ms == 0 && told.item->0.id is None
                && told.item->0.image_url is None && told.item->0.kind == MediaKind::Track
            &&& !current ==> told.progress(at_ms) == position_ms
            &&& current && (end == 0 || position_ms <= end) ==> told.progress(at_ms)
                == position_ms
            &&& current && end > 0 && position_ms > end ==> told.progress(at_ms) == end
            &&& run <= u64::MAX && (!current || end == 0 || run <= end) ==> told.progress(later_ms)
                == run
        }),
{
}

/// Pausing, stalling and the end of a track stop the clock: for good at the
/// position shown, or at the end of an item of known length. Resuming goes on
/// from the position of a clock that stands.
pub proof fn stops_and_resumes_are_shown(
    clock: ClockModel,
    at_ms: u64,
    later_ms: u64,
    now_ms: i64,
)
    requires
        at_ms <= later_ms,
    ensures
        ({
            let paused = after_event(clock, PlayerEventModel::Paused, at_ms, now_ms);
            let stalled = stopped(clock, at_ms, now_ms);
            let ended = after_event(clock, PlayerEventModel::Ended, at_ms, now_ms);
            let resumed = after_event(clock, PlayerEventModel::Resumed, at_ms, now_ms);
            let known = clock.item is Some && clock.item->0.duration_ms > 0;
            let end = clock.item->0.duration_ms;
            let run = clock.base_progress_ms + (later_ms - at_ms);
            &&& !paused.is_playing && paused.progress(later_ms) == clock.progress(at_ms)
            &&& !stalled.is_playing && stalled.progress(later_ms) == clock.progress(at_ms)
            &&& stalled.item == clock.item && stalled.device == clock.device
            &&& stalled.shuffle == clock.shuffle && stalled.repeat == clock.repeat
            &&& stalled.source == PlaybackStateSource::PlayerEvent && stalled.sampled_at_ms
                == now_ms && stalled.first_empty_poll_ms is None && stalled.provider_timestamp_ms
                == clock.provider_timestamp_ms
            &&& !ended.is_playing
            &&& known ==> ended.progress(later_ms) == end
            &&& !known ==> ended.progress(later_ms) == clock.base_progress_ms
            &&& resumed.is_playing
            &&& !clock.is_playing ==> resumed.progress(at_ms) == clock.progress(at_ms)
            &&& run <= u64::MAX && (!known || run <= end) ==> resumed.progress(later_ms) == run
        }),
{
}

/// A tick that is more than a second and a half off sets the position, and any
/// other leaves everything that is shown. The play state is never its business.
pub proof fn ticks_set_the_position_beyond_the_threshold(
    clock: ClockModel,
    position_ms: u32,
    at_ms: u64,
    now_ms: i64,
)
    ensures
        ({
            let told = after_event(clock, PlayerEventModel::Tick { position_ms }, at_ms, now_ms);
            let off = clock.progress(at_ms) - position_ms;
            let known = clock.item is Some && clock.item->0.duration_ms > 0;
            let end = clock.item->0.duration_ms;
            &&& told.is_playing == clock.is_playing
            &&& -1_500 <= off <= 1_500 ==> told == (ClockModel {
                first_empty_poll_ms: None,
                ..clock
            })
            &&& off < -1_500 || off > 1_500 ==> {
                &&& !known || position_ms <= end ==> told.progress(at_ms) == position_ms
                &&& known && position_ms > end ==> told.progress(at_ms) == end
                &&& told.source == PlaybackStateSource::PlayerEvent
                &&& told.sampled_at_ms == now_ms
            }
        }),
{
}

/// The result of a command brings its item, device and modes. The play state
/// and the position are also its own, unless a player event already spoke for
/// the same track: then they stay.
pub proof fn command_results_are_shown(
    clock: ClockModel,
    playback: PlaybackModel,
    sampled_at_ms: i64,
    at_ms: u64,
    later_ms: u64,
)
    requires
        at_ms <= later_ms,
    ensures
        ({
            let done = after_command(clock, playback, sampled_at_ms, at_ms);
            let owned = clock.source == PlaybackStateSource::PlayerEvent && (clock.item is Some) == (
            playback.item is Some) && (clock.item is Some ==> clock.item->0.uri
                == playback.item->0.uri);
            let known = playback.item is Some && playback.item->0.duration_ms > 0;
            let end = playback.item->0.duration_ms;
            let run = playback.progress_ms + (later_ms - at_ms);
            &&& done.item == playback.item
            &&& done.device == playback.device
            &&& done.shuffle == playback.shuffle
            &&& done.repeat == playback.repeat
            &&& done.provider_timestamp_ms == clock.provider_timestamp_ms
            &&& done.first_empty_poll_ms is None
            &&& owned ==> done.is_playing == clock.is_playing && done.base_progress_ms
                == clock.base_progress_ms && done.base_at_ms == clock.base_at_ms && done.source
                == clock.source && done.sampled_at_ms == clock.sampled_at_ms
            &&& !owned ==> {
                &&& done.is_playing == playback.is_playing
                &&& done.source == PlaybackStateSource::CommandResult
                &&& done.sampled_at_ms == sampled_at_ms
                &&& !known || playback.progress_ms <= end ==> done.progress(at_ms)
                    == playback.progress_ms
                &&& known && playback.progress_ms > end ==> done.progress(at_ms) == end
                &&& !playback.is_playing ==> done.progress(later_ms) == done.progress(at_ms)
                &&& playback.is_playing && run <= u64::MAX && (!known || run <= end)
                    ==> done.progress(later_ms) == run
            }
        }),
{
}

/// A seek moves the position to where it was asked to, up to the end of an item
/// of known length, and nothing else that readers see but the sample's stamp.
pub proof fn seeks_move_only_the_position(
    clock: ClockModel,
    position_ms: u64,
    sampled_at_ms: i64,
    at_ms: u64,
    later_ms: u64,
)
    requires
        at_ms <= later_ms,
    ensures
        ({
            let sought = after_seek(clock, position_ms, sampled_at_ms, at_ms);
            let known = clock.item is Some && clock.item->0.duration_ms > 0;
            let end = clock.item->0.duration_ms;
            let run = position_ms + (later_ms - at_ms);
            &&& !known || position_ms <= end ==> sought.progress(at_ms) == position_ms
            &&& known && position_ms > end ==> sought.progress(at_ms) == end
            &&& !clock.is_playing ==> sought.progress(later_ms) == sought.progress(at_ms)
            &&& clock.is_playing && run <= u64::MAX && (!known || run <= end) ==> sought.progress(
                later_ms,
            ) == run
            &&& sought.is_playing == clock.is_playing
            &&& sought.item == clock.item
            &&& sought.device == clock.device
            &&& sought.shuffle == clock.shuffle
            &&& sought.repeat == clock.repeat
            &&& sought.provider_timestamp_ms == clock.provider_timestamp_ms
            &&& sought.source == PlaybackStateSource::CommandResult
            &&& sought.sampled_at_ms == sampled_at_ms
            &&& sought.first_empty_poll_ms is None
        }),
{
}

/// Every gap of an item is filled by what another sample of its URI knows.
pub proof fn gaps_are_filled_from_the_sample(target: MediaItemModel, source: MediaItemModel)
    requires
        target.uri == source.uri,
    ensures
        target.id is None ==> filled_item(target, source).id == source.id,
        target.name.len() == 0 ==> filled_item(target, source).name == source.name,
        target.subtitle.len() == 0 ==> filled_item(target, source).subtitle == source.subtitle,
        target.context.len() == 0 ==> filled_item(target, source).context == source.context,
        target.duration_ms == 0 ==> filled_item(target, source).duration_ms == source.duration_ms,
        target.image_url is None ==> filled_item(target, source).image_url == source.image_url,
        target.source is None ==> filled_item(target, source).source == source.source,
        target.freshness is None ==> filled_item(target, source).freshness == source.freshness,
        target.explicit is None ==> filled_item(target, source).explicit == source.explicit,
        target.is_playable is None ==> filled_item(target, source).is_playable
            == source.is_playable,
        target.album is None ==> filled_item(target, source).album == source.album,
        target.added_at_ms is None ==> filled_item(target, source).added_at_ms
            == source.added_at_ms,
        target.resume_position_ms is None ==> filled_item(target, source).resume_position_ms
            == source.resume_position_ms,
        target.fully_played is None ==> filled_item(target, source).fully_played
            == source.fully_played,
        target.release_date is None ==> filled_item(target, source).release_date
            == source.release_date,
        target.album_group is None ==> filled_item(target, source).album_group
            == source.album_group,
        target.in_library is None ==> filled_item(target, source).in_library == source.in_library,
        target.album_uri is None ==> filled_item(target, source).album_uri == source.album_uri,
        target.artists.len() == 0 ==> filled_item(target, source).artists == source.artists,
        target.genre is None ==> filled_item(target, source).genre == source.genre,
        filled_current(Some(target), source) == Some(filled_item(target, source)),
        filled_current(None, source) is None,
{
}

/// Every event of the player is read as what it is: a start or a change of
/// track as playing its URI from its position, and the events that do not move
/// the clock as nothing.
pub proof fn player_events_are_read(event: PlayerEvent)
    ensures
        event matches PlayerEvent::PlaybackStarted { uri, position_ms } ==> event@ == (
        PlayerEventModel::Playing { uri: uri@.text(), position_ms }),
        event matches PlayerEvent::TrackChanged { uri, position_ms } ==> event@ == (
        PlayerEventModel::Playing { uri: uri@.text(), position_ms }),
        event is PlaybackPaused <==> event@ is Paused,
        event is PlaybackResumed <==> event@ is Resumed,
        event is EndOfTrack <==> event@ is Ended,
        event matches PlayerEvent::PositionTick { position_ms } ==> event@ == (
        PlayerEventModel::Tick { position_ms }),
{
}

/// What a call with a poll leaves for readers, where the poll shows a session
/// and is of another track, or of the same one over a cached, a remembered or
/// an older sample: its item, device, play state, modes and position, all of
/// them, whether or not the track is the one that played. The call tells that
/// something changed.
pub proof fn applied_polls_are_what_readers_see(
    playback: &Playback,
    seq: u64,
    sampled_at_ms: i64,
    stamp: Option<i64>,
    at_ms: u64,
)
    requires
        playback@.item is Some || playback@.device is Some || playback@.is_playing,
    ensures
        forall|clock: &mut PlaybackClock, changed: bool, shown: Playback|
            #![trigger call_ensures(
                PlaybackClock::apply_web_api_poll,
                (clock, playback, seq, seq, sampled_at_ms, stamp, at_ms),
                changed,
            ), call_ensures(PlaybackClock::snapshot, (&mut_ref_future(clock), at_ms), shown)]
            call_ensures(
                PlaybackClock::apply_web_api_poll,
                (clock, playback, seq, seq, sampled_at_ms, stamp, at_ms),
                changed,
            ) && call_ensures(PlaybackClock::snapshot, (&mut_ref_future(clock), at_ms), shown) && (
            sampled_at_ms - mut_ref_current(clock)@.sampled_at_ms > 1_500 || mut_ref_current(
                clock,
            )@.source == PlaybackStateSource::Cache || mut_ref_current(clock)@.source
                == PlaybackStateSource::RecentFallback || (mut_ref_current(clock)@.item is Some) != (
            playback@.item is Some) || (playback@.item is Some && mut_ref_current(
                clock,
            )@.item->0.uri != playback@.item->0.uri)) ==> {
                &&& changed
                &&& shown@.item == playback@.item
                &&& shown@.device == playback@.device
                &&& shown@.is_playing == playback@.is_playing
                &&& shown@.shuffle == playback@.shuffle
                &&& shown@.repeat == playback@.repeat
                &&& shown@.provider_timestamp_ms == stamp
                &&& shown@.sampled_at_ms == Some(sampled_at_ms)
                &&& playback@.item is None || playback@.item->0.duration_ms == 0
                    || playback@.progress_ms <= playback@.item->0.duration_ms
                    ==> shown@.progress_ms == playback@.progress_ms
            },
{
    assert forall|clock: &mut PlaybackClock, changed: bool, shown: Playback|
        #![trigger call_ensures(
                PlaybackClock::apply_web_api_poll,
                (clock, playback, seq, seq, sampled_at_ms, stamp, at_ms),
                changed,
            ), call_ensures(PlaybackClock::snapshot, (&mut_ref_future(clock), at_ms), shown)]
        call_ensures(
            PlaybackClock::apply_web_api_poll,
            (clock, playback, seq, seq, sampled_at_ms, stamp, at_ms),
            changed,
        ) && call_ensures(PlaybackClock::snapshot, (&mut_ref_future(clock), at_ms), shown) && (
        sampled_at_ms - mut_ref_current(clock)@.sampled_at_ms > 1_500 || mut_ref_current(
            clock,
        )@.source == PlaybackStateSource::Cache || mut_ref_current(clock)@.source
            == PlaybackStateSource::RecentFallback || (mut_ref_current(clock)@.item is Some) != (
        playback@.item is Some) || (playback@.item is Some && mut_ref_current(clock)@.item->0.uri
            != playback@.item->0.uri)) implies {
        &&& changed
        &&& shown@.item == playback@.item
        &&& shown@.device == playback@.device
        &&& shown@.is_playing == playback@.is_playing
        &&& shown@.shuffle == playback@.shuffle
        &&& shown@.repeat == playback@.repeat
        &&& shown@.provider_timestamp_ms == stamp
        &&& shown@.sampled_at_ms == Some(sampled_at_ms)
        &&& playback@.item is None || playback@.item->0.duration_ms == 0 || playback@.progress_ms
            <= playback@.item->0.duration_ms ==> shown@.progress_ms == playback@.progress_ms
    } by {
        polls_that_take_over_are_shown(
            mut_ref_current(clock)@,
            playback@,
            seq,
            sampled_at_ms,
            stamp,
            at_ms,
            at_ms,
        );
    }
}

/// What each call on a clock leaves and answers with is what is told of its
/// transition.
pub proof fn calls_move_the_clock_as_told()
    ensures
        forall|this: &PlaybackClock, at_ms: u64, answer: u64|
            #[trigger] call_ensures(
                PlaybackClock::current_progress_ms,
                (this, at_ms),
                answer,
            ) ==> {
                &&& answer == this@.progress(at_ms)
            },
        forall|
            this: &mut PlaybackClock,
            playback: Playback,
            source: PlaybackStateSource,
            sampled_at_ms: i64,
            at_ms: u64,
        |
            #[trigger] call_ensures(
                PlaybackClock::seed_from_cache,
                (this, playback, source, sampled_at_ms, at_ms),
                (),
            ) ==> {
                &&& mut_ref_future(this)@ == seeded(playback@, source, sampled_at_ms, at_ms)
            },
        forall|this: &PlaybackClock, at_ms: u64, answer: Playback|
            #[trigger] call_ensures(PlaybackClock::snapshot, (this, at_ms), answer) ==> {
                &&& answer@ == this@.snapshot(at_ms)
            },
        forall|this: &mut PlaybackClock, event: &PlayerEvent, at_ms: u64, now_ms: i64|
            #[trigger] call_ensures(
                PlaybackClock::apply_player_event,
                (this, event, at_ms, now_ms),
                (),
            ) ==> {
                &&& mut_ref_future(this)@ == after_event(mut_ref_current(this)@, event@, at_ms, now_ms)
            },
        forall|this: &mut PlaybackClock, at_ms: u64, now_ms: i64, answer: bool|
            #[trigger] call_ensures(
                PlaybackClock::mark_audio_stalled,
                (this, at_ms, now_ms),
                answer,
            ) ==> {
                &&& answer == mut_ref_current(this)@.is_playing
                &&& mut_ref_future(this)@ == if mut_ref_current(this)@.is_playing {
                    stopped(mut_ref_current(this)@, at_ms, now_ms)
                } else {
                    mut_ref_current(this)@
                }
            },
        forall|this: &mut PlaybackClock, item: &MediaItem, answer: bool|
            #[trigger] call_ensures(
                PlaybackClock::enrich_current_item,
                (this, item),
                answer,
            ) ==> {
                &&& answer == (filled_current(mut_ref_current(this)@.item, item@) != mut_ref_current(this)@.item)
                &&& mut_ref_future(this)@ == if answer {
                    ClockModel {
                        item: filled_current(mut_ref_current(this)@.item, item@),
                        first_empty_poll_ms: None,
                        ..mut_ref_current(this)@
                    }
                } else {
                    mut_ref_current(this)@
                }
            },
        forall|this: &mut PlaybackClock, playback: &Playback, sampled_at_ms: i64, at_ms: u64|
            #[trigger] call_ensures(
                PlaybackClock::apply_command_result,
                (this, playback, sampled_at_ms, at_ms),
                (),
            ) ==> {
                &&& mut_ref_future(this)@ == after_command(mut_ref_current(this)@, playback@, sampled_at_ms, at_ms)
            },
        forall|
            this: &mut PlaybackClock,
            playback: &Playback,
            captured_seq: u64,
            state_seq: u64,
            sampled_at_ms: i64,
            provider_timestamp_ms: Option<i64>,
            at_ms: u64,
            answer: bool,
        |
            #[trigger] call_ensures(
                PlaybackClock::apply_web_api_poll,
                (this, playback, captured_seq, state_seq, sampled_at_ms, provider_timestamp_ms, at_ms),
                answer,
            ) ==> {
                &&& mut_ref_future(this)@ == after_poll(
                    mut_ref_current(this)@,
                    playback@,
                    captured_seq,
                    state_seq,
                    sampled_at_ms,
                    provider_timestamp_ms,
                    at_ms,
                )
                &&& answer == poll_changes(mut_ref_current(this)@, playback@, captured_seq, state_seq, sampled_at_ms)
            },
        forall|
            this: &mut PlaybackClock,
            playback: &Playback,
            sampled_at_ms: i64,
            provider_timestamp_ms: Option<i64>,
            at_ms: u64,
            answer: Option<Playback>,
        |
            #[trigger] call_ensures(
                PlaybackClock::prepare_web_api_poll,
                (this, playback, sampled_at_ms, provider_timestamp_ms, at_ms),
                answer,
            ) ==> {
                &&& opt_view(answer) == poll_candidate(
                    mut_ref_current(this)@,
                    playback@,
                    sampled_at_ms,
                    provider_timestamp_ms,
                    at_ms,
                )
                &&& mut_ref_future(this)@ == after_prepare(mut_ref_current(this)@, playback@, sampled_at_ms)
            },
        forall|this: &mut PlaybackClock, position_ms: u64, sampled_at_ms: i64, at_ms: u64|
            #[trigger] call_ensures(
                PlaybackClock::apply_seek,
                (this, position_ms, sampled_at_ms, at_ms),
                (),
            ) ==> {
                &&& mut_ref_future(this)@ == after_seek(mut_ref_current(this)@, position_ms, sampled_at_ms, at_ms)
            },
{
}

} // verus!
