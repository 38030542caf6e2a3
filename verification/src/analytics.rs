//! Analytics events: what is recorded of searches, actions and listening.

use vstd::prelude::*;
use vstd::string::*;
use vstd::utf8::*;

use crate::text::{
    chars_of, concat2, concat3, decimal, find_char, first_at, from_range, i64_text, is_white_space,
    is_word, join_texts, joined, lemma_first_at, lemma_first_at_bounds, lemma_joined_first,
    lemma_joined_lowered, lemma_lowered_idempotent, lemma_pieces_first, lemma_pieces_rejoin,
    lemma_pieces_single, lemma_seq_view_push, lemma_texts_push, lemma_words_are_words,
    lemma_words_of_joined, lowered, lowered_all, opt_str, opt_text, pieces, same_text, seq_view,
    signed_decimal, split_text, texts, to_lowered, u64_text, words, words_of,
};

verus! {

broadcast use {lemma_seq_view_push, lemma_texts_push};

// ---------------------------------------------------------------------------
// Labels
// ---------------------------------------------------------------------------

/// What an event records.
#[derive(Clone, Copy, Debug, PartialEq, Eq, Structural)]
pub enum AnalyticsEventKind {
    ActionFinished,
    SearchPerformed,
    SearchResultSelected,
    PlaybackStarted,
    PlaybackPaused,
    PlaybackResumed,
    PlaybackSkipped,
    PlaybackCompleted,
    ListenQualified,
    SpotifyApiFinished,
}

impl AnalyticsEventKind {
    pub open spec fn name(self) -> Seq<char> {
        match self {
            AnalyticsEventKind::ActionFinished => "action_finished"@,
            AnalyticsEventKind::SearchPerformed => "search_performed"@,
            AnalyticsEventKind::SearchResultSelected => "search_result_selected"@,
            AnalyticsEventKind::PlaybackStarted => "playback_started"@,
            AnalyticsEventKind::PlaybackPaused => "playback_paused"@,
            AnalyticsEventKind::PlaybackResumed => "playback_resumed"@,
            AnalyticsEventKind::PlaybackSkipped => "playback_skipped"@,
            AnalyticsEventKind::PlaybackCompleted => "playback_completed"@,
            AnalyticsEventKind::ListenQualified => "listen_qualified"@,
            AnalyticsEventKind::SpotifyApiFinished => "spotify_api_finished"@,
        }
    }

    pub open spec fn named(s: Seq<char>) -> Option<AnalyticsEventKind> {
        if s == "action_finished"@ {
            Some(AnalyticsEventKind::ActionFinished)
        } else if s == "search_performed"@ {
            Some(AnalyticsEventKind::SearchPerformed)
        } else if s == "search_result_selected"@ {
            Some(AnalyticsEventKind::SearchResultSelected)
        } else if s == "playback_started"@ {
            Some(AnalyticsEventKind::PlaybackStarted)
        } else if s == "playback_paused"@ {
            Some(AnalyticsEventKind::PlaybackPaused)
        } else if s == "playback_resumed"@ {
            Some(AnalyticsEventKind::PlaybackResumed)
        } else if s == "playback_skipped"@ {
            Some(AnalyticsEventKind::PlaybackSkipped)
        } else if s == "playback_completed"@ {
            Some(AnalyticsEventKind::PlaybackCompleted)
        } else if s == "listen_qualified"@ {
            Some(AnalyticsEventKind::ListenQualified)
        } else if s == "spotify_api_finished"@ {
            Some(AnalyticsEventKind::SpotifyApiFinished)
        } else {
            None
        }
    }

    pub fn label(&self) -> (r: &'static str)
        ensures
            r@ == self.name(),
    {
        match self {
            AnalyticsEventKind::ActionFinished => "action_finished",
            AnalyticsEventKind::SearchPerformed => "search_performed",
            AnalyticsEventKind::SearchResultSelected => "search_result_selected",
            AnalyticsEventKind::PlaybackStarted => "playback_started",
            AnalyticsEventKind::PlaybackPaused => "playback_paused",
            AnalyticsEventKind::PlaybackResumed => "playback_resumed",
            AnalyticsEventKind::PlaybackSkipped => "playback_skipped",
            AnalyticsEventKind::PlaybackCompleted => "playback_completed",
            AnalyticsEventKind::ListenQualified => "listen_qualified",
            AnalyticsEventKind::SpotifyApiFinished => "spotify_api_finished",
        }
    }

    /// The value of that exact name; the error names any other text.
    pub fn from_label(value: &str) -> (r: Result<AnalyticsEventKind, String>)
        ensures
            match r {
                Ok(found) => AnalyticsEventKind::named(value@) == Some(found),
                Err(message) => AnalyticsEventKind::named(value@) is None && message@ == "unknown analytics event kind `"@ + value@
                    + "`"@,
            },
    {
        if same_text(value, "action_finished") {
            Ok(AnalyticsEventKind::ActionFinished)
        } else if same_text(value, "search_performed") {
            Ok(AnalyticsEventKind::SearchPerformed)
        } else if same_text(value, "search_result_selected") {
            Ok(AnalyticsEventKind::SearchResultSelected)
        } else if same_text(value, "playback_started") {
            Ok(AnalyticsEventKind::PlaybackStarted)
        } else if same_text(value, "playback_paused") {
            Ok(AnalyticsEventKind::PlaybackPaused)
        } else if same_text(value, "playback_resumed") {
            Ok(AnalyticsEventKind::PlaybackResumed)
        } else if same_text(value, "playback_skipped") {
            Ok(AnalyticsEventKind::PlaybackSkipped)
        } else if same_text(value, "playback_completed") {
            Ok(AnalyticsEventKind::PlaybackCompleted)
        } else if same_text(value, "listen_qualified") {
            Ok(AnalyticsEventKind::ListenQualified)
        } else if same_text(value, "spotify_api_finished") {
            Ok(AnalyticsEventKind::SpotifyApiFinished)
        } else {
            Err(concat3("unknown analytics event kind `", value, "`"))
        }
    }
}

impl std::str::FromStr for AnalyticsEventKind {
    type Err = String;

    fn from_str(value: &str) -> (r: Result<Self, Self::Err>)
        ensures
            match r {
                Ok(found) => AnalyticsEventKind::named(value@) == Some(found),
                Err(message) => AnalyticsEventKind::named(value@) is None && message@ == "unknown analytics event kind `"@ + value@
                    + "`"@,
            },
    {
        AnalyticsEventKind::from_label(value)
    }
}

/// Every kind of event is found again under its own name.
pub proof fn event_kind_names_round_trip(value: AnalyticsEventKind)
    ensures
        AnalyticsEventKind::named(value.name()) == Some(value),
{
    reveal_strlit("action_finished");
    reveal_strlit("search_performed");
    reveal_strlit("search_result_selected");
    reveal_strlit("playback_started");
    reveal_strlit("playback_paused");
    reveal_strlit("playback_resumed");
    reveal_strlit("playback_skipped");
    reveal_strlit("playback_completed");
    reveal_strlit("listen_qualified");
    reveal_strlit("spotify_api_finished");
    assert("action_finished"@.len() != "search_performed"@.len());
    assert("action_finished"@.len() != "search_result_selected"@.len());
    assert("search_performed"@.len() != "search_result_selected"@.len());
    assert("action_finished"@.len() != "playback_started"@.len());
    assert("search_performed"@[0] != "playback_started"@[0]);
    assert("search_result_selected"@.len() != "playback_started"@.len());
    assert("action_finished"@[0] != "playback_paused"@[0]);
    assert("search_performed"@.len() != "playback_paused"@.len());
    assert("search_result_selected"@.len() != "playback_paused"@.len());
    assert("playback_started"@.len() != "playback_paused"@.len());
    assert("action_finished"@.len() != "playback_resumed"@.len());
    assert("search_performed"@[0] != "playback_resumed"@[0]);
    assert("search_result_selected"@.len() != "playback_resumed"@.len());
    assert("playback_started"@[9] != "playback_resumed"@[9]);
    assert("playback_paused"@.len() != "playback_resumed"@.len());
    assert("action_finished"@.len() != "playback_skipped"@.len());
    assert("search_performed"@[0] != "playback_skipped"@[0]);
    assert("search_result_selected"@.len() != "playback_skipped"@.len());
    assert("playback_started"@[10] != "playback_skipped"@[10]);
    assert("playback_paused"@.len() != "playback_skipped"@.len());
    assert("playback_resumed"@[9] != "playback_skipped"@[9]);
    assert("action_finished"@.len() != "playback_completed"@.len());
    assert("search_performed"@.len() != "playback_completed"@.len());
    assert("search_result_selected"@.len() != "playback_completed"@.len());
    assert("playback_started"@.len() != "playback_completed"@.len());
    assert("playback_paused"@.len() != "playback_completed"@.len());
    assert("playback_resumed"@.len() != "playback_completed"@.len());
    assert("playback_skipped"@.len() != "playback_completed"@.len());
    assert("action_finished"@.len() != "listen_qualified"@.len());
    assert("search_performed"@[0] != "listen_qualified"@[0]);
    assert("search_result_selected"@.len() != "listen_qualified"@.len());
    assert("playback_started"@[0] != "listen_qualified"@[0]);
    assert("playback_paused"@.len() != "listen_qualified"@.len());
    assert("playback_resumed"@[0] != "listen_qualified"@[0]);
    assert("playback_skipped"@[0] != "listen_qualified"@[0]);
    assert("playback_completed"@.len() != "listen_qualified"@.len());
    assert("action_finished"@.len() != "spotify_api_finished"@.len());
    assert("search_performed"@.len() != "spotify_api_finished"@.len());
    assert("search_result_selected"@.len() != "spotify_api_finished"@.len());
    assert("playback_started"@.len() != "spotify_api_finished"@.len());
    assert("playback_paused"@.len() != "spotify_api_finished"@.len());
    assert("playback_resumed"@.len() != "spotify_api_finished"@.len());
    assert("playback_skipped"@.len() != "spotify_api_finished"@.len());
    assert("playback_completed"@.len() != "spotify_api_finished"@.len());
    assert("listen_qualified"@.len() != "spotify_api_finished"@.len());
}

/// Who recorded an event.
#[derive(Clone, Copy, Debug, PartialEq, Eq, Structural)]
pub enum AnalyticsSource {
    Cli,
    Tui,
    SpotifyApi,
    Daemon,
}

impl AnalyticsSource {
    pub open spec fn name(self) -> Seq<char> {
        match self {
            AnalyticsSource::Cli => "cli"@,
            AnalyticsSource::Tui => "tui"@,
            AnalyticsSource::SpotifyApi => "spotify_api"@,
            AnalyticsSource::Daemon => "daemon"@,
        }
    }

    pub open spec fn named(s: Seq<char>) -> Option<AnalyticsSource> {
        if s == "cli"@ {
            Some(AnalyticsSource::Cli)
        } else if s == "tui"@ {
            Some(AnalyticsSource::Tui)
        } else if s == "spotify_api"@ {
            Some(AnalyticsSource::SpotifyApi)
        } else if s == "daemon"@ {
            Some(AnalyticsSource::Daemon)
        } else {
            None
        }
    }

    pub fn label(&self) -> (r: &'static str)
        ensures
            r@ == self.name(),
    {
        match self {
            AnalyticsSource::Cli => "cli",
            AnalyticsSource::Tui => "tui",
            AnalyticsSource::SpotifyApi => "spotify_api",
            AnalyticsSource::Daemon => "daemon",
        }
    }

    /// The value of that exact name; the error names any other text.
    pub fn from_label(value: &str) -> (r: Result<AnalyticsSource, String>)
        ensures
            match r {
                Ok(found) => AnalyticsSource::named(value@) == Some(found),
                Err(message) => AnalyticsSource::named(value@) is None && message@ == "unknown analytics source `"@ + value@
                    + "`"@,
            },
    {
        if same_text(value, "cli") {
            Ok(AnalyticsSource::Cli)
        } else if same_text(value, "tui") {
            Ok(AnalyticsSource::Tui)
        } else if same_text(value, "spotify_api") {
            Ok(AnalyticsSource::SpotifyApi)
        } else if same_text(value, "daemon") {
            Ok(AnalyticsSource::Daemon)
        } else {
            Err(concat3("unknown analytics source `", value, "`"))
        }
    }
}

impl std::str::FromStr for AnalyticsSource {
    type Err = String;

    fn from_str(value: &str) -> (r: Result<Self, Self::Err>)
        ensures
            match r {
                Ok(found) => AnalyticsSource::named(value@) == Some(found),
                Err(message) => AnalyticsSource::named(value@) is None && message@ == "unknown analytics source `"@ + value@
                    + "`"@,
            },
    {
        AnalyticsSource::from_label(value)
    }
}

/// Every source of events is found again under its own name.
pub proof fn event_source_names_round_trip(value: AnalyticsSource)
    ensures
        AnalyticsSource::named(value.name()) == Some(value),
{
    reveal_strlit("cli");
    reveal_strlit("tui");
    reveal_strlit("spotify_api");
    reveal_strlit("daemon");
    assert("cli"@[0] != "tui"@[0]);
    assert("cli"@.len() != "spotify_api"@.len());
    assert("tui"@.len() != "spotify_api"@.len());
    assert("cli"@.len() != "daemon"@.len());
    assert("tui"@.len() != "daemon"@.len());
    assert("spotify_api"@.len() != "daemon"@.len());
}

/// Why a listen ended.
#[derive(Clone, Copy, Debug, PartialEq, Eq, Structural)]
pub enum SkipReason {
    UserNext,
    UserPrevious,
    TrackEnd,
    Error,
    SessionDied,
}

impl SkipReason {
    pub open spec fn name(self) -> Seq<char> {
        match self {
            SkipReason::UserNext => "user_next"@,
            SkipReason::UserPrevious => "user_previous"@,
            SkipReason::TrackEnd => "track_end"@,
            SkipReason::Error => "error"@,
            SkipReason::SessionDied => "session_died"@,
        }
    }

    pub fn label(&self) -> (r: &'static str)
        ensures
            r@ == self.name(),
    {
        match self {
            SkipReason::UserNext => "user_next",
            SkipReason::UserPrevious => "user_previous",
            SkipReason::TrackEnd => "track_end",
            SkipReason::Error => "error",
            SkipReason::SessionDied => "session_died",
        }
    }
}

/// How the user got to a track.
#[derive(Clone, Copy, Debug, PartialEq, Eq, Structural)]
pub enum PlaybackSource {
    Search,
    Playlist,
    Album,
    Queue,
    Library,
    Agent,
    Radio,
    Unknown,
}

impl PlaybackSource {
    pub open spec fn name(self) -> Seq<char> {
        match self {
            PlaybackSource::Search => "search"@,
            PlaybackSource::Playlist => "playlist"@,
            PlaybackSource::Album => "album"@,
            PlaybackSource::Queue => "queue"@,
            PlaybackSource::Library => "library"@,
            PlaybackSource::Agent => "agent"@,
            PlaybackSource::Radio => "radio"@,
            PlaybackSource::Unknown => "unknown"@,
        }
    }

    pub fn label(&self) -> (r: &'static str)
        ensures
            r@ == self.name(),
    {
        match self {
            PlaybackSource::Search => "search",
            PlaybackSource::Playlist => "playlist",
            PlaybackSource::Album => "album",
            PlaybackSource::Queue => "queue",
            PlaybackSource::Library => "library",
            PlaybackSource::Agent => "agent",
            PlaybackSource::Radio => "radio",
            PlaybackSource::Unknown => "unknown",
        }
    }
}

/// Which player engine produced a listen.
#[derive(Clone, Copy, Debug, PartialEq, Eq, Structural)]
pub enum BackendLabel {
    Embedded,
    Spotifyd,
    Connect,
}

impl BackendLabel {
    pub open spec fn name(self) -> Seq<char> {
        match self {
            BackendLabel::Embedded => "embedded"@,
            BackendLabel::Spotifyd => "spotifyd"@,
            BackendLabel::Connect => "connect"@,
        }
    }

    pub fn label(&self) -> (r: &'static str)
        ensures
            r@ == self.name(),
    {
        match self {
            BackendLabel::Embedded => "embedded",
            BackendLabel::Spotifyd => "spotifyd",
            BackendLabel::Connect => "connect",
        }
    }
}

/// How a listen was measured: by the player, or as an imported scrobble.
#[derive(Clone, Copy, Debug, PartialEq, Eq, Structural)]
pub enum MeasurementKind {
    ObservedPlayback,
    LastfmScrobbleImport,
}

impl MeasurementKind {
    pub open spec fn name(self) -> Seq<char> {
        match self {
            MeasurementKind::ObservedPlayback => "observed_playback"@,
            MeasurementKind::LastfmScrobbleImport => "lastfm_scrobble_import"@,
        }
    }

    pub fn label(&self) -> (r: &'static str)
        ensures
            r@ == self.name(),
    {
        match self {
            MeasurementKind::ObservedPlayback => "observed_playback",
            MeasurementKind::LastfmScrobbleImport => "lastfm_scrobble_import",
        }
    }
}

impl Default for MeasurementKind {
    fn default() -> (r: Self)
        ensures
            r == MeasurementKind::ObservedPlayback,
    {
        MeasurementKind::ObservedPlayback
    }
}

/// The size of a bucket of the habit rollup.
#[derive(Clone, Copy, Debug, PartialEq, Eq, Structural)]
pub enum HabitWindow {
    Day,
    Week,
    Month,
}

impl HabitWindow {
    pub open spec fn name(self) -> Seq<char> {
        match self {
            HabitWindow::Day => "day"@,
            HabitWindow::Week => "week"@,
            HabitWindow::Month => "month"@,
        }
    }

    pub fn label(&self) -> (r: &'static str)
        ensures
            r@ == self.name(),
    {
        match self {
            HabitWindow::Day => "day",
            HabitWindow::Week => "week",
            HabitWindow::Month => "month",
        }
    }
}

// ---------------------------------------------------------------------------
// Payloads
// ---------------------------------------------------------------------------

/// A JSON value of a payload. A number is its numeral; an array or an object
/// is its JSON text.
#[derive(Clone, Debug, PartialEq, Eq)]
pub enum JsonValue {
    Null,
    Bool(bool),
    Number(String),
    Text(String),
    Nested(String),
}

/// A JSON value as plain values.
pub enum JsonModel {
    Null,
    Bool(bool),
    Number(Seq<char>),
    Text(Seq<char>),
    Nested(Seq<char>),
}

impl View for JsonValue {
    type V = JsonModel;

    open spec fn view(&self) -> JsonModel {
        match *self {
            JsonValue::Null => JsonModel::Null,
            JsonValue::Bool(b) => JsonModel::Bool(b),
            JsonValue::Number(s) => JsonModel::Number(s@),
            JsonValue::Text(s) => JsonModel::Text(s@),
            JsonValue::Nested(s) => JsonModel::Nested(s@),
        }
    }
}

/// A field of a JSON object.
#[derive(Clone, Debug, PartialEq, Eq)]
pub struct JsonField {
    pub key: String,
    pub value: JsonValue,
}

/// A field as plain values.
pub struct FieldModel {
    pub key: Seq<char>,
    pub value: JsonModel,
}

impl View for JsonField {
    type V = FieldModel;

    open spec fn view(&self) -> FieldModel {
        FieldModel { key: self.key@, value: self.value@ }
    }
}

/// A numeral, an optional numeral, an optional text as JSON.
pub open spec fn json_int(n: int) -> JsonModel {
    JsonModel::Number(signed_decimal(n))
}

pub open spec fn json_opt_text(o: Option<Seq<char>>) -> JsonModel {
    match o {
        Some(s) => JsonModel::Text(s),
        None => JsonModel::Null,
    }
}

/// Whether a key stands in a list of fields.
pub open spec fn has_key(fields: Seq<FieldModel>, key: Seq<char>) -> bool {
    exists|i: int| 0 <= i < fields.len() && (#[trigger] fields[i]).key == key
}

/// A field by its key and value.
pub open spec fn field(key: Seq<char>, value: JsonModel) -> FieldModel {
    FieldModel { key, value }
}

/// The fields of an object after a value was put under a key: it takes the
/// place of what stood there, or comes last.
pub open spec fn inserted(fields: Seq<FieldModel>, key: Seq<char>, value: JsonModel) -> Seq<
    FieldModel,
> {
    if has_key(fields, key) {
        Seq::new(
            fields.len(),
            |i: int|
                if fields[i].key == key {
                    FieldModel { key, value }
                } else {
                    fields[i]
                },
        )
    } else {
        fields.push(FieldModel { key, value })
    }
}

fn make_field(key: &str, value: JsonValue) -> (r: JsonField)
    ensures
        r@ == field(key@, value@),
{
    JsonField { key: key.to_owned(), value }
}

fn text_value(s: &str) -> (r: JsonValue)
    ensures
        r@ == JsonModel::Text(s@),
{
    JsonValue::Text(s.to_owned())
}

fn opt_text_value(o: Option<&str>) -> (r: JsonValue)
    ensures
        r@ == json_opt_text(opt_str(o)),
{
    match o {
        Some(s) => JsonValue::Text(s.to_owned()),
        None => JsonValue::Null,
    }
}

fn int_value(n: i64) -> (r: JsonValue)
    ensures
        r@ == json_int(n as int),
{
    JsonValue::Number(i64_text(n))
}

fn uint_value(n: u64) -> (r: JsonValue)
    ensures
        r@ == json_int(n as int),
{
    JsonValue::Number(u64_text(n))
}

/// Puts a text under a key of an object.
fn insert_text(fields: &mut Vec<JsonField>, key: &str, value: &str)
    ensures
        seq_view(final(fields)@) == inserted(
            seq_view(old(fields)@),
            key@,
            JsonModel::Text(value@),
        ),
{
    let ghost before = seq_view(fields@);
    let mut found = false;
    let mut i: usize = 0;
    while i < fields.len()
        invariant
            i <= fields@.len(),
            fields@.len() == before.len(),
            found <==> exists|k: int| 0 <= k < i && (#[trigger] before[k]).key == key@,
            forall|k: int|
                0 <= k < i ==> (#[trigger] seq_view(fields@)[k]) == if before[k].key == key@ {
                    FieldModel { key: key@, value: JsonModel::Text(value@) }
                } else {
                    before[k]
                },
            forall|k: int| i <= k < before.len() ==> (#[trigger] seq_view(fields@)[k]) == before[k],
        decreases fields@.len() - i,
    {
        assert(seq_view(fields@)[i as int] == before[i as int]);
        if same_text(fields[i].key.as_str(), key) {
            let ghost held = seq_view(fields@);
            fields[i].value = text_value(value);
            found = true;
            assert(seq_view(fields@) =~= held.update(
                i as int,
                FieldModel { key: key@, value: JsonModel::Text(value@) },
            ));
        }
        i = i + 1;
    }
    if found {
        assert(seq_view(fields@) =~= inserted(before, key@, JsonModel::Text(value@)));
    } else {
        assert(seq_view(fields@) =~= before);
        fields.push(make_field(key, text_value(value)));
    }
}

// ---------------------------------------------------------------------------
// Events
// ---------------------------------------------------------------------------

/// An event. The payload is a JSON object.
#[derive(Clone, Debug, PartialEq, Eq)]
pub struct AnalyticsEvent {
    pub kind: AnalyticsEventKind,
    pub occurred_at_ms: i64,
    pub source: AnalyticsSource,
    pub subject_uri: Option<String>,
    pub search_query: Option<String>,
    pub search_query_hash: Option<String>,
    pub payload: Vec<JsonField>,
}

/// An event as the log holds it.
#[derive(Clone, Debug, PartialEq, Eq)]
pub struct StoredAnalyticsEvent {
    pub id: i64,
    pub kind: AnalyticsEventKind,
    pub occurred_at_ms: i64,
    pub received_at_ms: i64,
    pub source: AnalyticsSource,
    pub subject_uri: Option<String>,
    pub search_query: Option<String>,
    pub search_query_hash: Option<String>,
    pub payload: Vec<JsonField>,
}

/// An event as plain values.
pub struct EventModel {
    pub kind: AnalyticsEventKind,
    pub occurred_at_ms: i64,
    pub source: AnalyticsSource,
    pub subject_uri: Option<Seq<char>>,
    pub search_query: Option<Seq<char>>,
    pub search_query_hash: Option<Seq<char>>,
    pub payload: Seq<FieldModel>,
}

impl View for AnalyticsEvent {
    type V = EventModel;

    open spec fn view(&self) -> EventModel {
        EventModel {
            kind: self.kind,
            occurred_at_ms: self.occurred_at_ms,
            source: self.source,
            subject_uri: opt_text(self.subject_uri),
            search_query: opt_text(self.search_query),
            search_query_hash: opt_text(self.search_query_hash),
            payload: seq_view(self.payload@),
        }
    }
}

/// Builds the event that a call to the provider's API leaves. The path is
/// redacted.
pub fn spotify_api_finished_event(
    source: AnalyticsSource,
    method: &str,
    path: &str,
    status: Option<u16>,
    elapsed_ms: u128,
    error_class: Option<&str>,
    occurred_at_ms: i64,
) -> (r: AnalyticsEvent)
    requires
        elapsed_ms <= u64::MAX,
    ensures
        r@ == (EventModel {
            kind: AnalyticsEventKind::SpotifyApiFinished,
            occurred_at_ms,
            source,
            subject_uri: None,
            search_query: None,
            search_query_hash: None,
            payload: seq![
                field("method"@, JsonModel::Text(method@)),
                field("path"@, JsonModel::Text(redacted_path(path@))),
                field(
                    "status"@,
                    match status {
                        Some(n) => json_int(n as int),
                        None => JsonModel::Null,
                    },
                ),
                field("elapsed_ms"@, json_int(elapsed_ms as int)),
                field("error_class"@, json_opt_text(opt_str(error_class))),
            ],
        }),
{
    let redacted = redact_spotify_path(path);
    let status_value = match status {
        Some(n) => uint_value(n as u64),
        None => JsonValue::Null,
    };
    let mut payload: Vec<JsonField> = Vec::new();
    payload.push(make_field("method", text_value(method)));
    payload.push(make_field("path", text_value(redacted.as_str())));
    payload.push(make_field("status", status_value));
    payload.push(make_field("elapsed_ms", uint_value(elapsed_ms as u64)));
    payload.push(make_field("error_class", opt_text_value(error_class)));
    let r = AnalyticsEvent {
        kind: AnalyticsEventKind::SpotifyApiFinished,
        occurred_at_ms,
        source,
        subject_uri: None,
        search_query: None,
        search_query_hash: None,
        payload,
    };
    assert(r@.payload =~= seq![
        field("method"@, JsonModel::Text(method@)),
        field("path"@, JsonModel::Text(redacted_path(path@))),
        field(
            "status"@,
            match status {
                Some(n) => json_int(n as int),
                None => JsonModel::Null,
            },
        ),
        field("elapsed_ms"@, json_int(elapsed_ms as int)),
        field("error_class"@, json_opt_text(opt_str(error_class))),
    ]);
    r
}

/// A search query with its words in lower case and one space between them.
pub open spec fn normalized_query(query: Seq<char>) -> Seq<char> {
    lowered(joined(words(query), seq![' ']))
}

/// A search query with its words in lower case and one space between them.
pub fn normalize_search_query(query: &str) -> (r: String)
    ensures
        r@ == normalized_query(query@),
{
    let parts = words_of(query);
    let text = join_texts(parts.as_slice(), " ");
    proof {
        reveal_strlit(" ");
        assert(" "@ =~= seq![' ']);
    }
    to_lowered(text.as_str())
}

/// The SHA-256 digest of a row of bytes.
pub uninterp spec fn sha256(bytes: Seq<u8>) -> Seq<u8>;

/// `sha2::Sha256::digest` gives the SHA-256 digest of its input, which is 32
/// bytes long.
#[verifier::external_body]
fn sha256_digest(bytes: &[u8]) -> (r: Vec<u8>)
    ensures
        r@ == sha256(bytes@),
        r@.len() == 32,
{
    <sha2::Sha256 as sha2::Digest>::digest(bytes).to_vec()
}

/// The character of a hexadecimal digit.
pub open spec fn hex_char(d: int) -> char {
    if d < 10 {
        ((d + 48) as u8) as char
    } else {
        ((d + 87) as u8) as char
    }
}

/// Bytes in lowercase hexadecimal, two digits each.
pub open spec fn hex(bytes: Seq<u8>) -> Seq<char> {
    Seq::new(
        bytes.len() * 2,
        |i: int|
            if i % 2 == 0 {
                hex_char(bytes[i / 2] as int / 16)
            } else {
                hex_char(bytes[i / 2] as int % 16)
            },
    )
}

fn hex_digit_char(d: u8) -> (r: char)
    requires
        d < 16,
    ensures
        r == hex_char(d as int),
{
    if d < 10 {
        (d + 48) as char
    } else {
        (d + 87) as char
    }
}

/// Bytes in lowercase hexadecimal, two digits each.
pub fn hex_text(bytes: &[u8]) -> (r: String)
    ensures
        r@ == hex(bytes@),
{
    let mut out = String::new();
    let mut i: usize = 0;
    while i < bytes.len()
        invariant
            i <= bytes@.len(),
            out@ =~= hex(bytes@).take(2 * i),
        decreases bytes@.len() - i,
    {
        let b: u8 = bytes[i];
        proof {
            assert((2 * i) / 2 == i && (2 * i) % 2 == 0);
            assert((2 * i + 1) / 2 == i && (2 * i + 1) % 2 == 1);
        }
        out.push(hex_digit_char(b / 16));
        out.push(hex_digit_char(b % 16));
        i = i + 1;
    }
    assert(hex(bytes@).take(2 * bytes@.len() as int) =~= hex(bytes@));
    out
}

/// The SHA-256 digest of a text, in hexadecimal.
pub fn sha256_hex(value: &str) -> (r: String)
    ensures
        r@ == hex(sha256(encode_utf8(value@))),
        r@.len() == 64,
{
    let digest = sha256_digest(value.as_bytes());
    hex_text(digest.as_slice())
}

/// The event of a search; `query_hash` is what searches are grouped by.
pub open spec fn search_event(
    source: AnalyticsSource,
    query: Seq<char>,
    query_hash: Seq<char>,
    result_count: int,
    latency_ms: int,
    occurred_at_ms: i64,
) -> EventModel {
    EventModel {
        kind: AnalyticsEventKind::SearchPerformed,
        occurred_at_ms,
        source,
        subject_uri: None,
        search_query: Some(query),
        search_query_hash: Some(query_hash),
        payload: seq![
            field("normalized_query"@, JsonModel::Text(normalized_query(query))),
            field("result_count"@, json_int(result_count)),
            field("latency_ms"@, json_int(latency_ms)),
        ],
    }
}

/// Builds the event of a search whose query has the given hash.
pub fn search_event_with_hash(
    source: AnalyticsSource,
    query: &str,
    query_hash: String,
    result_count: usize,
    latency_ms: u128,
    occurred_at_ms: i64,
) -> (r: AnalyticsEvent)
    requires
        latency_ms <= u64::MAX,
    ensures
        r@ == search_event(
            source,
            query@,
            query_hash@,
            result_count as int,
            latency_ms as int,
            occurred_at_ms,
        ),
{
    let normalized = normalize_search_query(query);
    let mut payload: Vec<JsonField> = Vec::new();
    payload.push(make_field("normalized_query", text_value(normalized.as_str())));
    payload.push(make_field("result_count", uint_value(result_count as u64)));
    payload.push(make_field("latency_ms", uint_value(latency_ms as u64)));
    let r = AnalyticsEvent {
        kind: AnalyticsEventKind::SearchPerformed,
        occurred_at_ms,
        source,
        subject_uri: None,
        search_query: Some(query.to_owned()),
        search_query_hash: Some(query_hash),
        payload,
    };
    assert(r@.payload =~= search_event(
        source,
        query@,
        query_hash@,
        result_count as int,
        latency_ms as int,
        occurred_at_ms,
    ).payload);
    r
}

/// Builds the event of a search. The hash is that of the normalized query.
pub fn search_performed_event(
    source: AnalyticsSource,
    query: &str,
    result_count: usize,
    latency_ms: u128,
    occurred_at_ms: i64,
) -> (r: AnalyticsEvent)
    requires
        latency_ms <= u64::MAX,
    ensures
        r@ == search_event(
            source,
            query@,
            hex(sha256(encode_utf8(normalized_query(query@)))),
            result_count as int,
            latency_ms as int,
            occurred_at_ms,
        ),
{
    let normalized = normalize_search_query(query);
    let hash = sha256_hex(normalized.as_str());
    search_event_with_hash(source, query, hash, result_count, latency_ms, occurred_at_ms)
}

/// Builds the event of a finished action. Its payload is the caller's object,
/// or an empty one where the caller has none, with the action and its result.
pub fn action_finished_event(
    source: AnalyticsSource,
    action: &str,
    subject_uri: Option<&str>,
    result: &str,
    payload: Option<Vec<JsonField>>,
    occurred_at_ms: i64,
) -> (r: AnalyticsEvent)
    ensures
        r@ == (EventModel {
            kind: AnalyticsEventKind::ActionFinished,
            occurred_at_ms,
            source,
            subject_uri: opt_str(subject_uri),
            search_query: None,
            search_query_hash: None,
            payload: inserted(
                inserted(
                    match payload {
                        Some(fields) => seq_view(fields@),
                        None => Seq::empty(),
                    },
                    "action"@,
                    JsonModel::Text(action@),
                ),
                "result"@,
                JsonModel::Text(result@),
            ),
        }),
{
    let mut fields = match payload {
        Some(fields) => fields,
        None => {
            let none: Vec<JsonField> = Vec::new();
            assert(seq_view(none@) =~= Seq::<FieldModel>::empty());
            none
        },
    };
    insert_text(&mut fields, "action", action);
    insert_text(&mut fields, "result", result);
    AnalyticsEvent {
        kind: AnalyticsEventKind::ActionFinished,
        occurred_at_ms,
        source,
        subject_uri: match subject_uri {
            Some(uri) => Some(uri.to_owned()),
            None => None,
        },
        search_query: None,
        search_query_hash: None,
        payload: fields,
    }
}

/// An event about a track.
pub open spec fn playback_event(
    kind: AnalyticsEventKind,
    source: AnalyticsSource,
    track_uri: Seq<char>,
    occurred_at_ms: i64,
    payload: Seq<FieldModel>,
) -> EventModel {
    EventModel {
        kind,
        occurred_at_ms,
        source,
        subject_uri: Some(track_uri),
        search_query: None,
        search_query_hash: None,
        payload,
    }
}

fn track_event(
    kind: AnalyticsEventKind,
    source: AnalyticsSource,
    track_uri: &str,
    occurred_at_ms: i64,
    payload: Vec<JsonField>,
) -> (r: AnalyticsEvent)
    ensures
        r@ == playback_event(kind, source, track_uri@, occurred_at_ms, seq_view(payload@)),
{
    AnalyticsEvent {
        kind,
        occurred_at_ms,
        source,
        subject_uri: Some(track_uri.to_owned()),
        search_query: None,
        search_query_hash: None,
        payload,
    }
}

/// Builds the event of a track that starts.
pub fn playback_started_event(
    source: AnalyticsSource,
    track_uri: &str,
    position_ms: i64,
    device_id: Option<&str>,
    private_session: bool,
    occurred_at_ms: i64,
) -> (r: AnalyticsEvent)
    ensures
        r@ == playback_event(
            AnalyticsEventKind::PlaybackStarted,
            source,
            track_uri@,
            occurred_at_ms,
            seq![
                field("position_ms"@, json_int(position_ms as int)),
                field("device_id"@, json_opt_text(opt_str(device_id))),
                field("private_session"@, JsonModel::Bool(private_session)),
            ],
        ),
{
    let mut payload: Vec<JsonField> = Vec::new();
    payload.push(make_field("position_ms", int_value(position_ms)));
    payload.push(make_field("device_id", opt_text_value(device_id)));
    payload.push(make_field("private_session", JsonValue::Bool(private_session)));
    assert(seq_view(payload@) =~= seq![
        field("position_ms"@, json_int(position_ms as int)),
        field("device_id"@, json_opt_text(opt_str(device_id))),
        field("private_session"@, JsonModel::Bool(private_session)),
    ]);
    track_event(AnalyticsEventKind::PlaybackStarted, source, track_uri, occurred_at_ms, payload)
}

/// Builds the event of a track that is paused.
pub fn playback_paused_event(
    source: AnalyticsSource,
    track_uri: &str,
    position_ms: i64,
    occurred_at_ms: i64,
) -> (r: AnalyticsEvent)
    ensures
        r@ == playback_event(
            AnalyticsEventKind::PlaybackPaused,
            source,
            track_uri@,
            occurred_at_ms,
            seq![
                field("position_ms"@, json_int(position_ms as int)),
            ],
        ),
{
    let mut payload: Vec<JsonField> = Vec::new();
    payload.push(make_field("position_ms", int_value(position_ms)));
    assert(seq_view(payload@) =~= seq![
        field("position_ms"@, json_int(position_ms as int)),
    ]);
    track_event(AnalyticsEventKind::PlaybackPaused, source, track_uri, occurred_at_ms, payload)
}

/// Builds the event of a track that is resumed.
pub fn playback_resumed_event(
    source: AnalyticsSource,
    track_uri: &str,
    position_ms: i64,
    occurred_at_ms: i64,
) -> (r: AnalyticsEvent)
    ensures
        r@ == playback_event(
            AnalyticsEventKind::PlaybackResumed,
            source,
            track_uri@,
            occurred_at_ms,
            seq![
                field("position_ms"@, json_int(position_ms as int)),
            ],
        ),
{
    let mut payload: Vec<JsonField> = Vec::new();
    payload.push(make_field("position_ms", int_value(position_ms)));
    assert(seq_view(payload@) =~= seq![
        field("position_ms"@, json_int(position_ms as int)),
    ]);
    track_event(AnalyticsEventKind::PlaybackResumed, source, track_uri, occurred_at_ms, payload)
}

/// Builds the event of a track that is skipped.
pub fn playback_skipped_event(
    source: AnalyticsSource,
    track_uri: &str,
    position_ms: i64,
    elapsed_ms: i64,
    skip_reason: SkipReason,
    private_session: bool,
    occurred_at_ms: i64,
) -> (r: AnalyticsEvent)
    ensures
        r@ == playback_event(
            AnalyticsEventKind::PlaybackSkipped,
            source,
            track_uri@,
            occurred_at_ms,
            seq![
                field("position_ms"@, json_int(position_ms as int)),
                field("elapsed_ms"@, json_int(elapsed_ms as int)),
                field("skip_reason"@, JsonModel::Text(skip_reason.name())),
                field("private_session"@, JsonModel::Bool(private_session)),
            ],
        ),
{
    let mut payload: Vec<JsonField> = Vec::new();
    payload.push(make_field("position_ms", int_value(position_ms)));
    payload.push(make_field("elapsed_ms", int_value(elapsed_ms)));
    payload.push(make_field("skip_reason", text_value(skip_reason.label())));
    payload.push(make_field("private_session", JsonValue::Bool(private_session)));
    assert(seq_view(payload@) =~= seq![
        field("position_ms"@, json_int(position_ms as int)),
        field("elapsed_ms"@, json_int(elapsed_ms as int)),
        field("skip_reason"@, JsonModel::Text(skip_reason.name())),
        field("private_session"@, JsonModel::Bool(private_session)),
    ]);
    track_event(AnalyticsEventKind::PlaybackSkipped, source, track_uri, occurred_at_ms, payload)
}

/// Builds the event of a track that ended. The ratio of it that was played
/// comes as a JSON numeral.
pub fn playback_completed_event(
    source: AnalyticsSource,
    track_uri: &str,
    elapsed_ms: i64,
    audible_ms: i64,
    completion_ratio: &str,
    qualification: Qualification,
    private_session: bool,
    occurred_at_ms: i64,
) -> (r: AnalyticsEvent)
    ensures
        r@ == playback_event(
            AnalyticsEventKind::PlaybackCompleted,
            source,
            track_uri@,
            occurred_at_ms,
            seq![
                field("elapsed_ms"@, json_int(elapsed_ms as int)),
                field("audible_ms"@, json_int(audible_ms as int)),
                field("completion_ratio"@, JsonModel::Number(completion_ratio@)),
                field("qualified"@, JsonModel::Bool(qualification.qualified)),
                field("qualification_rule_version"@, json_int(qualification.rule_version as int)),
                field("qualification_threshold_ms"@, json_int(qualification.threshold_ms as int)),
                field("private_session"@, JsonModel::Bool(private_session)),
            ],
        ),
{
    let mut payload: Vec<JsonField> = Vec::new();
    payload.push(make_field("elapsed_ms", int_value(elapsed_ms)));
    payload.push(make_field("audible_ms", int_value(audible_ms)));
    payload.push(make_field("completion_ratio", JsonValue::Number(completion_ratio.to_owned())));
    payload.push(make_field("qualified", JsonValue::Bool(qualification.qualified)));
    payload.push(make_field("qualification_rule_version", uint_value(qualification.rule_version as u64)));
    payload.push(make_field("qualification_threshold_ms", int_value(qualification.threshold_ms)));
    payload.push(make_field("private_session", JsonValue::Bool(private_session)));
    assert(seq_view(payload@) =~= seq![
        field("elapsed_ms"@, json_int(elapsed_ms as int)),
        field("audible_ms"@, json_int(audible_ms as int)),
        field("completion_ratio"@, JsonModel::Number(completion_ratio@)),
        field("qualified"@, JsonModel::Bool(qualification.qualified)),
        field("qualification_rule_version"@, json_int(qualification.rule_version as int)),
        field("qualification_threshold_ms"@, json_int(qualification.threshold_ms as int)),
        field("private_session"@, JsonModel::Bool(private_session)),
    ]);
    track_event(AnalyticsEventKind::PlaybackCompleted, source, track_uri, occurred_at_ms, payload)
}

/// Builds the event of a listen that counts.
pub fn listen_qualified_event(
    source: AnalyticsSource,
    track_uri: &str,
    duration_ms: i64,
    audible_ms: i64,
    artist_uri: Option<&str>,
    album_uri: Option<&str>,
    occurred_at_ms: i64,
) -> (r: AnalyticsEvent)
    ensures
        r@ == playback_event(
            AnalyticsEventKind::ListenQualified,
            source,
            track_uri@,
            occurred_at_ms,
            seq![
                field("duration_ms"@, json_int(duration_ms as int)),
                field("audible_ms"@, json_int(audible_ms as int)),
                field("artist_uri"@, json_opt_text(opt_str(artist_uri))),
                field("album_uri"@, json_opt_text(opt_str(album_uri))),
                field("qualification_rule_version"@, json_int(1)),
            ],
        ),
{
    let mut payload: Vec<JsonField> = Vec::new();
    payload.push(make_field("duration_ms", int_value(duration_ms)));
    payload.push(make_field("audible_ms", int_value(audible_ms)));
    payload.push(make_field("artist_uri", opt_text_value(artist_uri)));
    payload.push(make_field("album_uri", opt_text_value(album_uri)));
    payload.push(make_field("qualification_rule_version", uint_value(QUALIFICATION_RULE_VERSION as u64)));
    assert(seq_view(payload@) =~= seq![
        field("duration_ms"@, json_int(duration_ms as int)),
        field("audible_ms"@, json_int(audible_ms as int)),
        field("artist_uri"@, json_opt_text(opt_str(artist_uri))),
        field("album_uri"@, json_opt_text(opt_str(album_uri))),
        field("qualification_rule_version"@, json_int(QUALIFICATION_RULE_VERSION as int)),
    ]);
    track_event(AnalyticsEventKind::ListenQualified, source, track_uri, occurred_at_ms, payload)
}

// ---------------------------------------------------------------------------
// Listens that count
// ---------------------------------------------------------------------------

/// The version of the rule, stamped on everything that it decided.
pub const QUALIFICATION_RULE_VERSION: u32 = 1;

/// Whether a listen counts, and from how much audible time on it does.
#[derive(Clone, Copy, Debug, PartialEq, Eq, Structural)]
pub struct Qualification {
    pub qualified: bool,
    pub threshold_ms: i64,
    pub rule_version: u32,
}

/// How much of a track has to be heard: half of it, but at least half a
/// minute and at most four minutes.
pub open spec fn listen_threshold(duration_ms: int) -> int {
    let half = duration_ms / 2;
    let capped = if half < 240_000 {
        half
    } else {
        240_000
    };
    if capped > 30_000 {
        capped
    } else {
        30_000
    }
}

/// Whether a listen counts: the track is longer than half a minute, and
/// enough of it was heard.
pub fn qualify_listen(duration_ms: i64, audible_ms: i64) -> (r: Qualification)
    ensures
        r.threshold_ms == listen_threshold(duration_ms as int),
        r.qualified == (duration_ms > 30_000 && audible_ms >= listen_threshold(
            duration_ms as int,
        )),
        r.rule_version == 1,
{
    let threshold_ms: i64 = if duration_ms <= 30_000 {
        30_000
    } else {
        let half: i64 = duration_ms / 2;
        let capped: i64 = if half < 240_000 {
            half
        } else {
            240_000
        };
        if capped > 30_000 {
            capped
        } else {
            30_000
        }
    };
    Qualification {
        qualified: duration_ms > 30_000 && audible_ms >= threshold_ms,
        threshold_ms,
        rule_version: QUALIFICATION_RULE_VERSION,
    }
}

/// The threshold lies between half a minute and four minutes, so that less
/// than half a minute never counts and four minutes of a longer track always
/// do; and a longer listen counts wherever a shorter one does.
pub proof fn listen_threshold_bounds(duration_ms: int, audible_ms: int, more_ms: int)
    requires
        audible_ms <= more_ms,
    ensures
        30_000 <= listen_threshold(duration_ms) <= 240_000,
        audible_ms < 30_000 ==> audible_ms < listen_threshold(duration_ms),
        240_000 <= audible_ms ==> audible_ms >= listen_threshold(duration_ms),
        audible_ms >= listen_threshold(duration_ms) ==> more_ms >= listen_threshold(duration_ms),
        60_000 <= duration_ms <= 480_000 ==> listen_threshold(duration_ms) == duration_ms / 2,
{
}

// ---------------------------------------------------------------------------
// Redaction
// ---------------------------------------------------------------------------

/// Whether the value under a key is the user's.
pub open spec fn is_sensitive(key: Seq<char>) -> bool {
    let k = lowered(key);
    k == "q"@ || k == "ids"@ || k == "uri"@ || k == "uris"@ || k == "market"@
}

/// What is kept of a pair of a query: nothing where it has no value, the key
/// alone where the value is the user's, else the pair.
pub open spec fn redacted_pair(pair: Seq<char>) -> Option<Seq<char>> {
    let at = first_at(pair, '=');
    if at >= pair.len() {
        None
    } else if is_sensitive(pair.take(at)) {
        Some(pair.take(at) + "=<redacted>"@)
    } else {
        Some(pair)
    }
}

/// What is kept of the pairs of a query.
pub open spec fn redacted_pairs(pairs: Seq<Seq<char>>) -> Seq<Seq<char>>
    decreases pairs.len(),
{
    if pairs.len() == 0 {
        Seq::empty()
    } else {
        match redacted_pair(pairs.last()) {
            Some(pair) => redacted_pairs(pairs.drop_last()).push(pair),
            None => redacted_pairs(pairs.drop_last()),
        }
    }
}

/// A path of the API without the user's data in its query.
pub open spec fn redacted_path(path: Seq<char>) -> Seq<char> {
    let at = first_at(path, '?');
    if at >= path.len() {
        path
    } else {
        let query = joined(redacted_pairs(pieces(path.skip(at + 1), '&')), seq!['&']);
        if query.len() == 0 {
            path.take(at)
        } else {
            path.take(at) + seq!['?'] + query
        }
    }
}

fn key_is_sensitive(key: &str) -> (r: bool)
    ensures
        r == is_sensitive(key@),
{
    let k = to_lowered(key);
    same_text(k.as_str(), "q") || same_text(k.as_str(), "ids") || same_text(k.as_str(), "uri")
        || same_text(k.as_str(), "uris") || same_text(k.as_str(), "market")
}

fn redact_pair(pair: &str) -> (r: Option<String>)
    ensures
        opt_text(r) == redacted_pair(pair@),
{
    let v = chars_of(pair);
    let at: usize = find_char(v.as_slice(), '=', 0);
    assert(v@.skip(0) =~= v@);
    if at >= v.len() {
        return None;
    }
    let key = from_range(v.as_slice(), 0, at);
    assert(key@ =~= pair@.take(at as int));
    if key_is_sensitive(key.as_str()) {
        Some(concat2(key.as_str(), "=<redacted>"))
    } else {
        Some(pair.to_owned())
    }
}

/// A path of the API without the user's data in its query.
pub fn redact_spotify_path(path: &str) -> (r: String)
    ensures
        r@ == redacted_path(path@),
{
    let v = chars_of(path);
    let at: usize = find_char(v.as_slice(), '?', 0);
    assert(v@.skip(0) =~= v@);
    if at >= v.len() {
        return path.to_owned();
    }
    let base = from_range(v.as_slice(), 0, at);
    let query = from_range(v.as_slice(), at + 1, v.len());
    proof {
        assert(base@ =~= path@.take(at as int));
        assert(query@ =~= path@.skip(at as int + 1));
    }
    let pairs = split_text(query.as_str(), '&');
    let mut kept: Vec<String> = Vec::new();
    let mut i: usize = 0;
    proof {
        assert(texts(pairs@).take(0) =~= Seq::<Seq<char>>::empty());
        assert(texts(kept@) =~= Seq::<Seq<char>>::empty());
    }
    while i < pairs.len()
        invariant
            i <= pairs@.len(),
            texts(kept@) == redacted_pairs(texts(pairs@).take(i as int)),
        decreases pairs@.len() - i,
    {
        proof {
            let done = texts(pairs@).take(i as int + 1);
            assert(done.drop_last() =~= texts(pairs@).take(i as int));
            assert(done.last() == pairs@[i as int]@);
        }
        if let Some(pair) = redact_pair(pairs[i].as_str()) {
            kept.push(pair);
        }
        i = i + 1;
    }
    let joined_query = join_texts(kept.as_slice(), "&");
    proof {
        assert(texts(pairs@).take(pairs@.len() as int) =~= texts(pairs@));
        reveal_strlit("&");
        assert("&"@ =~= seq!['&']);
        reveal_strlit("?");
        assert("?"@ =~= seq!['?']);
    }
    if joined_query.as_str().is_empty() {
        base
    } else {
        concat3(base.as_str(), "?", joined_query.as_str())
    }
}

// ---------------------------------------------------------------------------
// Laws
// ---------------------------------------------------------------------------

/// Normalizing a normalized query changes nothing.
pub proof fn normalizing_twice_changes_nothing(query: Seq<char>)
    ensures
        normalized_query(normalized_query(query)) == normalized_query(query),
{
    let ws = words(query);
    let low = lowered_all(ws);
    lemma_words_are_words(query);
    lemma_joined_lowered(ws, seq![' ']);
    assert(lowered(seq![' ']) =~= seq![' ']);
    assert forall|i: int| 0 <= i < low.len() implies is_word(#[trigger] low[i]) by {
        assert(is_word(ws[i]));
        assert forall|k: int| 0 <= k < low[i].len() implies !is_white_space(
            #[trigger] low[i][k],
        ) by {
            assert(!is_white_space(ws[i][k]));
        }
    }
    lemma_words_of_joined(low);
    lemma_joined_lowered(low, seq![' ']);
    assert(lowered_all(low) =~= low) by {
        assert forall|i: int| 0 <= i < low.len() implies lowered_all(low)[i] == low[i] by {
            lemma_lowered_idempotent(ws[i]);
        }
    }
}

/// Queries that differ only in the case of ASCII letters and in the white
/// space between and around their words are recorded under one digest.
pub proof fn equivalent_queries_share_a_digest(a: Seq<char>, b: Seq<char>)
    requires
        lowered_all(words(a)) == lowered_all(words(b)),
    ensures
        hex(sha256(encode_utf8(normalized_query(a)))) == hex(
            sha256(encode_utf8(normalized_query(b))),
        ),
{
    lemma_joined_lowered(words(a), seq![' ']);
    lemma_joined_lowered(words(b), seq![' ']);
}

/// What a pair is kept as has a value and is kept as it stands when it is
/// redacted again.
proof fn lemma_redacted_pair(pair: Seq<char>)
    requires
        forall|i: int| 0 <= i < pair.len() ==> #[trigger] pair[i] != '&',
    ensures
        redacted_pair(pair) matches Some(kept) ==> {
            &&& redacted_pair(kept) == Some(kept)
            &&& first_at(kept, '=') < kept.len()
            &&& forall|i: int| 0 <= i < kept.len() ==> #[trigger] kept[i] != '&'
        },
{
    lemma_first_at_bounds(pair, '=');
    let at = first_at(pair, '=');
    if at < pair.len() && is_sensitive(pair.take(at)) {
        reveal_strlit("=<redacted>");
        let kept = pair.take(at) + "=<redacted>"@;
        assert(kept[at] == '=');
        assert forall|k: int| 0 <= k < at implies #[trigger] kept[k] != '=' by {
            assert(kept[k] == pair[k]);
        }
        lemma_first_at(kept, '=', at);
        assert(kept.take(at) =~= pair.take(at));
        assert forall|i: int| 0 <= i < kept.len() implies #[trigger] kept[i] != '&' by {
            if i < at {
                assert(kept[i] == pair[i]);
            } else {
                assert(kept[i] == "=<redacted>"@[i - at]);
            }
        }
    }
}

proof fn lemma_redacted_pairs(pairs: Seq<Seq<char>>)
    requires
        forall|i: int, k: int|
            0 <= i < pairs.len() && 0 <= k < pairs[i].len() ==> #[trigger] pairs[i][k] != '&',
    ensures
        redacted_pairs(redacted_pairs(pairs)) == redacted_pairs(pairs),
        forall|i: int|
            0 <= i < redacted_pairs(pairs).len() ==> redacted_pair(
                #[trigger] redacted_pairs(pairs)[i],
            ) == Some(redacted_pairs(pairs)[i]),
        forall|i: int, k: int|
            0 <= i < redacted_pairs(pairs).len() && 0 <= k < redacted_pairs(pairs)[i].len()
                ==> #[trigger] redacted_pairs(pairs)[i][k] != '&',
        forall|i: int|
            0 <= i < redacted_pairs(pairs).len() ==> (#[trigger] redacted_pairs(pairs)[i]).len()
                > 0,
    decreases pairs.len(),
{
    if pairs.len() > 0 {
        let init = pairs.drop_last();
        assert forall|i: int, k: int|
            0 <= i < init.len() && 0 <= k < init[i].len() implies #[trigger] init[i][k]
            != '&' by {
            assert(init[i] == pairs[i]);
            assert(pairs[i][k] != '&');
        }
        lemma_redacted_pairs(init);
        let last = pairs.last();
        assert forall|k: int| 0 <= k < last.len() implies #[trigger] last[k] != '&' by {
            assert(pairs[pairs.len() - 1][k] != '&');
        }
        lemma_redacted_pair(last);
        let sub = redacted_pairs(init);
        let all = redacted_pairs(pairs);
        match redacted_pair(last) {
            Some(kept) => {
                assert(all.drop_last() =~= sub);
                assert(all.last() == kept);
                lemma_first_at_bounds(kept, '=');
                assert forall|i: int, k: int|
                    0 <= i < all.len() && 0 <= k < all[i].len() implies #[trigger] all[i][k]
                    != '&' by {
                    if i < sub.len() {
                        assert(all[i] == sub[i]);
                        assert(sub[i][k] != '&');
                    }
                }
                assert forall|i: int| 0 <= i < all.len() implies redacted_pair(
                    #[trigger] all[i],
                ) == Some(all[i]) by {
                    if i < sub.len() {
                        assert(all[i] == sub[i]);
                    }
                }
                assert forall|i: int| 0 <= i < all.len() implies (#[trigger] all[i]).len()
                    > 0 by {
                    if i < sub.len() {
                        assert(all[i] == sub[i]);
                    }
                }
            },
            None => {},
        }
    }
}

proof fn lemma_pieces_of_joined_pairs(parts: Seq<Seq<char>>)
    requires
        parts.len() > 0,
        forall|i: int, k: int|
            0 <= i < parts.len() && 0 <= k < parts[i].len() ==> #[trigger] parts[i][k] != '&',
    ensures
        pieces(joined(parts, seq!['&']), '&') == parts,
        joined(parts, seq!['&']).len() >= parts[0].len(),
    decreases parts.len(),
{
    let first = parts[0];
    assert forall|k: int| 0 <= k < first.len() implies #[trigger] first[k] != '&' by {
        assert(parts[0][k] != '&');
    }
    if parts.len() == 1 {
        lemma_pieces_single(first, '&');
        assert(parts =~= seq![first]);
    } else {
        let rest = parts.skip(1);
        assert(parts =~= seq![first] + rest);
        assert forall|i: int, k: int|
            0 <= i < rest.len() && 0 <= k < rest[i].len() implies #[trigger] rest[i][k]
            != '&' by {
            assert(rest[i] == parts[i + 1]);
            assert(parts[i + 1][k] != '&');
        }
        lemma_joined_first(first, rest, seq!['&']);
        lemma_pieces_of_joined_pairs(rest);
        lemma_pieces_first(first, joined(rest, seq!['&']), '&');
    }
}

/// The query of a path, taken apart into its pairs; none where there is no
/// query.
pub open spec fn query_pairs(path: Seq<char>) -> Seq<Seq<char>> {
    let at = first_at(path, '?');
    if at >= path.len() {
        Seq::empty()
    } else {
        pieces(path.skip(at + 1), '&')
    }
}

proof fn lemma_redacted_query(path: Seq<char>)
    ensures
        ({
            let kept = redacted_pairs(query_pairs(path));
            let at = first_at(path, '?');
            &&& at < path.len() && kept.len() > 0 ==> {
                &&& query_pairs(redacted_path(path)) == kept
                &&& first_at(redacted_path(path), '?') == at
                &&& redacted_path(path).take(at) == path.take(at)
                &&& at < redacted_path(path).len()
                &&& redacted_path(path) == path.take(at) + seq!['?'] + joined(kept, seq!['&'])
            }
            &&& at < path.len() && kept.len() == 0 ==> redacted_path(path) == path.take(at)
                && query_pairs(redacted_path(path)) == Seq::<Seq<char>>::empty() && first_at(
                redacted_path(path),
                '?',
            ) >= redacted_path(path).len()
        }),
{
    let at = first_at(path, '?');
    lemma_first_at_bounds(path, '?');
    if at < path.len() {
        let base = path.take(at);
        let query = path.skip(at + 1);
        let kept = redacted_pairs(pieces(query, '&'));
        lemma_pieces_rejoin(query, '&');
        lemma_redacted_pairs(pieces(query, '&'));
        let out = redacted_path(path);
        if kept.len() > 0 {
            lemma_pieces_of_joined_pairs(kept);
            let q = joined(kept, seq!['&']);
            assert(q.len() > 0);
            assert(out == base + seq!['?'] + q);
            assert forall|k: int| 0 <= k < at implies #[trigger] out[k] != '?' by {
                assert(out[k] == path[k]);
            }
            assert(out[at] == '?');
            lemma_first_at(out, '?', at);
            assert(out.skip(at + 1) =~= q);
            assert(out.take(at) =~= base);
        } else {
            assert(out == base);
            assert forall|k: int| 0 <= k < base.len() implies #[trigger] base[k] != '?' by {
                assert(base[k] == path[k]);
            }
            lemma_first_at(base, '?', base.len() as int);
        }
    }
}

/// Redacting a redacted path changes nothing.
pub proof fn redacting_twice_changes_nothing(path: Seq<char>)
    ensures
        redacted_path(redacted_path(path)) == redacted_path(path),
{
    let at = first_at(path, '?');
    lemma_first_at_bounds(path, '?');
    lemma_redacted_query(path);
    if at < path.len() {
        let pairs = query_pairs(path);
        let kept = redacted_pairs(pairs);
        lemma_pieces_rejoin(path.skip(at + 1), '&');
        lemma_redacted_pairs(pairs);
        if kept.len() > 0 {
            lemma_pieces_of_joined_pairs(kept);
        }
    }
}

/// In the query of a redacted path every pair has a value, and one under a
/// key of the user's data has the value `<redacted>`.
pub proof fn redacted_paths_hold_no_user_data(path: Seq<char>, i: int)
    requires
        0 <= i < query_pairs(redacted_path(path)).len(),
    ensures
        ({
            let pair = query_pairs(redacted_path(path))[i];
            let at = first_at(pair, '=');
            &&& at < pair.len()
            &&& is_sensitive(pair.take(at)) ==> pair.skip(at) == "=<redacted>"@
        }),
{
    let at = first_at(path, '?');
    lemma_first_at_bounds(path, '?');
    lemma_redacted_query(path);
    let pairs = query_pairs(path);
    if at < path.len() {
        lemma_pieces_rejoin(path.skip(at + 1), '&');
        lemma_redacted_pairs(pairs);
        let pair = query_pairs(redacted_path(path))[i];
        assert(redacted_pair(pair) == Some(pair));
        let eq = first_at(pair, '=');
        lemma_first_at_bounds(pair, '=');
        if is_sensitive(pair.take(eq)) {
            assert(pair == pair.take(eq) + "=<redacted>"@);
            assert(pair.skip(eq) =~= "=<redacted>"@);
        }
    }
}

/// A path without a query is kept as it stands.
pub proof fn paths_without_query_are_kept(path: Seq<char>)
    requires
        forall|i: int| 0 <= i < path.len() ==> #[trigger] path[i] != '?',
    ensures
        redacted_path(path) == path,
{
    lemma_first_at(path, '?', path.len() as int);
}

/// Half of a track has to be heard, but half a minute of one that is shorter
/// than a minute and four minutes of one that is longer than eight.
pub proof fn half_of_a_track_has_to_be_heard(duration_ms: int)
    ensures
        duration_ms < 60_000 ==> listen_threshold(duration_ms) == 30_000,
        60_000 <= duration_ms < 480_000 ==> 2 * listen_threshold(duration_ms) <= duration_ms < 2
            * listen_threshold(duration_ms) + 2,
        duration_ms >= 480_000 ==> listen_threshold(duration_ms) == 240_000,
{
}

/// A value put under a key stands there afterwards, at the place of what stood
/// there or at the end, and every other field is kept at its place.
pub proof fn values_are_put_under_their_key(
    fields: Seq<FieldModel>,
    key: Seq<char>,
    value: JsonModel,
    i: int,
)
    requires
        0 <= i < inserted(fields, key, value).len(),
    ensures
        ({
            let after = inserted(fields, key, value);
            let known = exists|k: int| 0 <= k < fields.len() && (#[trigger] fields[k]).key == key;
            &&& after.len() == if known {
                fields.len()
            } else {
                fields.len() + 1
            }
            &&& i < fields.len() ==> after[i].key == fields[i].key
            &&& i < fields.len() && fields[i].key != key ==> after[i] == fields[i]
            &&& i < fields.len() && fields[i].key == key ==> after[i].value == value
            &&& i == fields.len() ==> !known && after[i].key == key && after[i].value == value
        }),
{
}

/// A query is kept as its words in lower case, in their order, with one space
/// between them.
pub proof fn queries_keep_their_words(query: Seq<char>)
    ensures
        words(normalized_query(query)) == lowered_all(words(query)),
        normalized_query(query) == joined(lowered_all(words(query)), seq![' ']),
{
    let ws = words(query);
    let low = lowered_all(ws);
    lemma_words_are_words(query);
    lemma_joined_lowered(ws, seq![' ']);
    assert(lowered(seq![' ']) =~= seq![' ']);
    assert forall|i: int| 0 <= i < low.len() implies is_word(#[trigger] low[i]) by {
        assert(is_word(ws[i]));
        assert forall|k: int| 0 <= k < low[i].len() implies !is_white_space(
            #[trigger] low[i][k],
        ) by {
            assert(!is_white_space(ws[i][k]));
        }
    }
    lemma_words_of_joined(low);
}

/// Each byte is written as two digits, the upper half first: from 0 to 9, then
/// from a to f.
pub proof fn bytes_are_written_as_two_digits(bytes: Seq<u8>, i: int)
    requires
        0 <= i < bytes.len(),
    ensures
        hex(bytes).len() == 2 * bytes.len(),
        ({
            let high = bytes[i] as int / 16;
            let low = bytes[i] as int % 16;
            &&& hex(bytes)[2 * i] as u32 == if high < 10 {
                48 + high
            } else {
                97 + (high - 10)
            }
            &&& hex(bytes)[2 * i + 1] as u32 == if low < 10 {
                48 + low
            } else {
                97 + (low - 10)
            }
        }),
{
    let b = bytes[i] as int;
    assert(0 <= b < 256);
    assert(0 <= b / 16 < 16 && 0 <= b % 16 < 16);
    lemma_hex_char(b / 16);
    lemma_hex_char(b % 16);
    assert((2 * i) % 2 == 0 && (2 * i) / 2 == i);
    assert((2 * i + 1) % 2 == 1 && (2 * i + 1) / 2 == i);
}

proof fn lemma_hex_char(d: int)
    requires
        0 <= d < 16,
    ensures
        hex_char(d) as u32 == if d < 10 {
            48 + d
        } else {
            97 + (d - 10)
        },
{
}

/// The event of a search names its query as it was typed and by its hash, and
/// tells the query in its normal form, how much was found and how long it
/// took.
pub proof fn searches_are_recorded(
    source: AnalyticsSource,
    query: Seq<char>,
    hash: Seq<char>,
    found: int,
    latency_ms: int,
    at_ms: i64,
)
    ensures
        ({
            let event = search_event(source, query, hash, found, latency_ms, at_ms);
            &&& event.kind is SearchPerformed && event.source == source && event.occurred_at_ms
                == at_ms
            &&& event.subject_uri is None && event.search_query == Some(query)
            &&& event.search_query_hash == Some(hash) && event.payload.len() == 3
            &&& event.payload[0].key == "normalized_query"@ && event.payload[0].value
                == JsonModel::Text(joined(lowered_all(words(query)), seq![' ']))
            &&& event.payload[1].key == "result_count"@ && event.payload[1].value
                == JsonModel::Number(signed_decimal(found))
            &&& event.payload[2].key == "latency_ms"@ && event.payload[2].value
                == JsonModel::Number(signed_decimal(latency_ms))
        }),
{
    queries_keep_their_words(query);
}

/// An event of playback is about its track and carries no query.
pub proof fn playback_is_recorded_of_its_track(
    kind: AnalyticsEventKind,
    source: AnalyticsSource,
    uri: Seq<char>,
    at_ms: i64,
    payload: Seq<FieldModel>,
)
    ensures
        ({
            let event = playback_event(kind, source, uri, at_ms, payload);
            &&& event.kind == kind && event.source == source && event.occurred_at_ms == at_ms
            &&& event.subject_uri == Some(uri) && event.payload == payload
            &&& event.search_query is None && event.search_query_hash is None
        }),
{
}

/// The user's data are what stands under the keys of searches, ids, URIs and
/// the market, however these keys are capitalised.
pub proof fn five_keys_hold_user_data(key: Seq<char>, other: Seq<char>)
    ensures
        is_sensitive("q"@) && is_sensitive("ids"@) && is_sensitive("uri"@) && is_sensitive(
            "uris"@,
        ) && is_sensitive("market"@),
        lowered(key) == lowered(other) ==> is_sensitive(key) == is_sensitive(other),
        is_sensitive(key) ==> key.len() == 1 || key.len() == 3 || key.len() == 4 || key.len() == 6,
        is_sensitive(key) ==> lowered(key) == "q"@ || lowered(key) == "ids"@ || lowered(key)
            == "uri"@ || lowered(key) == "uris"@ || lowered(key) == "market"@,
{
    reveal_strlit("q");
    reveal_strlit("ids");
    reveal_strlit("uri");
    reveal_strlit("uris");
    reveal_strlit("market");
    assert(lowered("q"@) =~= "q"@);
    assert(lowered("ids"@) =~= "ids"@);
    assert(lowered("uri"@) =~= "uri"@);
    assert(lowered("uris"@) =~= "uris"@);
    assert(lowered("market"@) =~= "market"@);
}

/// Of the pairs of a query those with a value are kept, in their order: as
/// they stand, but with the value covered where it is the user's. `at` gives
/// the place that each had.
pub proof fn pairs_with_a_value_are_kept(pairs: Seq<Seq<char>>) -> (at: Seq<int>)
    ensures
        at.len() == redacted_pairs(pairs).len(),
        forall|i: int, j: int| 0 <= i < j < at.len() ==> at[i] < at[j],
        forall|i: int|
            0 <= i < at.len() ==> {
                let pair = pairs[#[trigger] at[i]];
                let kept = redacted_pairs(pairs)[i];
                let eq = first_at(pair, '=');
                &&& 0 <= at[i] < pairs.len() && pair.contains('=')
                &&& !is_sensitive(pair.take(eq)) ==> kept == pair
                &&& is_sensitive(pair.take(eq)) ==> kept == pair.take(eq) + "=<redacted>"@
            },
        forall|k: int|
            0 <= k < pairs.len() ==> (at.contains(k) <==> (#[trigger] pairs[k]).contains('=')),
    decreases pairs.len(),
{
    if pairs.len() == 0 {
        Seq::empty()
    } else {
        let init = pairs.drop_last();
        let n = pairs.len() - 1;
        let last = pairs.last();
        let before = pairs_with_a_value_are_kept(init);
        lemma_first_at_bounds(last, '=');
        let taken = redacted_pair(last) is Some;
        assert(taken <==> last.contains('=')) by {
            if last.contains('=') {
                let k = last.index_of('=');
                assert(last[k] == '=');
            }
        }
        let at = if taken {
            before.push(n)
        } else {
            before
        };
        let all = redacted_pairs(pairs);
        assert forall|i: int| 0 <= i < at.len() implies {
            let pair = pairs[#[trigger] at[i]];
            let eq = first_at(pair, '=');
            &&& 0 <= at[i] < pairs.len() && pair.contains('=')
            &&& !is_sensitive(pair.take(eq)) ==> all[i] == pair
            &&& is_sensitive(pair.take(eq)) ==> all[i] == pair.take(eq) + "=<redacted>"@
        } by {
            if i < before.len() {
                assert(at[i] == before[i]);
                assert(init[before[i]] == pairs[at[i]]);
                assert(all[i] == redacted_pairs(init)[i]);
            }
        }
        assert forall|k: int| 0 <= k < pairs.len() implies (at.contains(k) <==> (
        #[trigger] pairs[k]).contains('=')) by {
            if k < n {
                assert(init[k] == pairs[k]);
                if before.contains(k) {
                    assert(at[before.index_of(k)] == k);
                }
                if at.contains(k) {
                    assert(before[at.index_of(k)] == k);
                }
            } else if taken {
                assert(at[before.len() as int] == n);
            } else if at.contains(n) {
                assert(before[at.index_of(n)] == n);
            }
        }
        at
    }
}

/// A path keeps what stands before its query, and of the query the pairs that
/// are kept; where none are, it keeps no question mark either.
pub proof fn paths_keep_what_is_not_user_data(base: Seq<char>, query: Seq<char>)
    requires
        forall|i: int| 0 <= i < base.len() ==> #[trigger] base[i] != '?',
    ensures
        ({
            let path = base + seq!['?'] + query;
            let kept = redacted_pairs(pieces(query, '&'));
            &&& kept.len() == 0 ==> redacted_path(path) == base
            &&& kept.len() > 0 ==> redacted_path(path) == base + seq!['?'] + joined(kept, seq!['&'])
        }),
{
    let path = base + seq!['?'] + query;
    let n = base.len() as int;
    lemma_first_at(path, '?', n);
    assert(path.take(n) =~= base);
    assert(path.skip(n + 1) =~= query);
    let kept = redacted_pairs(pieces(query, '&'));
    lemma_pieces_rejoin(query, '&');
    if kept.len() > 0 {
        let at = pairs_with_a_value_are_kept(pieces(query, '&'));
        assert(0 <= at[0] < pieces(query, '&').len());
        assert(kept[0].len() > 0) by {
            reveal_strlit("=<redacted>");
            let pair = pieces(query, '&')[at[0]];
            let k = pair.index_of('=');
            assert(pair[k] == '=');
        }
        lemma_joined_is_longer(kept, seq!['&']);
    }
}

proof fn lemma_joined_is_longer(parts: Seq<Seq<char>>, sep: Seq<char>)
    requires
        parts.len() > 0,
    ensures
        joined(parts, sep).len() >= parts[0].len(),
    decreases parts.len(),
{
    if parts.len() > 1 {
        lemma_joined_is_longer(parts.drop_last(), sep);
        assert(parts.drop_last()[0] == parts[0]);
    }
}

/// The words that records use for the ends, the origins and the measures of a
/// listen.
pub proof fn records_use_these_words(
    reason: SkipReason,
    source: PlaybackSource,
    backend: BackendLabel,
    measure: MeasurementKind,
    window: HabitWindow,
)
    ensures
        match reason {
            SkipReason::UserNext => reason.name() == "user_next"@,
            SkipReason::UserPrevious => reason.name() == "user_previous"@,
            SkipReason::TrackEnd => reason.name() == "track_end"@,
            SkipReason::Error => reason.name() == "error"@,
            SkipReason::SessionDied => reason.name() == "session_died"@,
        },
        match source {
            PlaybackSource::Search => source.name() == "search"@,
            PlaybackSource::Playlist => source.name() == "playlist"@,
            PlaybackSource::Album => source.name() == "album"@,
            PlaybackSource::Queue => source.name() == "queue"@,
            PlaybackSource::Library => source.name() == "library"@,
            PlaybackSource::Agent => source.name() == "agent"@,
            PlaybackSource::Radio => source.name() == "radio"@,
            PlaybackSource::Unknown => source.name() == "unknown"@,
        },
        match backend {
            BackendLabel::Embedded => backend.name() == "embedded"@,
            BackendLabel::Spotifyd => backend.name() == "spotifyd"@,
            BackendLabel::Connect => backend.name() == "connect"@,
        },
        match measure {
            MeasurementKind::ObservedPlayback => measure.name() == "observed_playback"@,
            MeasurementKind::LastfmScrobbleImport => measure.name() == "lastfm_scrobble_import"@,
        },
        match window {
            HabitWindow::Day => window.name() == "day"@,
            HabitWindow::Week => window.name() == "week"@,
            HabitWindow::Month => window.name() == "month"@,
        },
{
}

/// The names of the events and of their sources, each of its own and of no
/// other; any other text names none.
pub proof fn events_have_their_names(s: Seq<char>)
    ensures
        AnalyticsEventKind::named(s) == Some(AnalyticsEventKind::ActionFinished) <==> s == "action_finished"@,
        AnalyticsEventKind::named(s) == Some(AnalyticsEventKind::SearchPerformed) <==> s == "search_performed"@,
        AnalyticsEventKind::named(s) == Some(AnalyticsEventKind::SearchResultSelected) <==> s == "search_result_selected"@,
        AnalyticsEventKind::named(s) == Some(AnalyticsEventKind::PlaybackStarted) <==> s == "playback_started"@,
        AnalyticsEventKind::named(s) == Some(AnalyticsEventKind::PlaybackPaused) <==> s == "playback_paused"@,
        AnalyticsEventKind::named(s) == Some(AnalyticsEventKind::PlaybackResumed) <==> s == "playback_resumed"@,
        AnalyticsEventKind::named(s) == Some(AnalyticsEventKind::PlaybackSkipped) <==> s == "playback_skipped"@,
        AnalyticsEventKind::named(s) == Some(AnalyticsEventKind::PlaybackCompleted) <==> s == "playback_completed"@,
        AnalyticsEventKind::named(s) == Some(AnalyticsEventKind::ListenQualified) <==> s == "listen_qualified"@,
        AnalyticsEventKind::named(s) == Some(AnalyticsEventKind::SpotifyApiFinished) <==> s == "spotify_api_finished"@,
        AnalyticsSource::named(s) == Some(AnalyticsSource::Cli) <==> s == "cli"@,
        AnalyticsSource::named(s) == Some(AnalyticsSource::Tui) <==> s == "tui"@,
        AnalyticsSource::named(s) == Some(AnalyticsSource::SpotifyApi) <==> s == "spotify_api"@,
        AnalyticsSource::named(s) == Some(AnalyticsSource::Daemon) <==> s == "daemon"@,
{
    event_kind_names_round_trip(AnalyticsEventKind::ActionFinished);
    event_kind_names_round_trip(AnalyticsEventKind::SearchPerformed);
    event_kind_names_round_trip(AnalyticsEventKind::SearchResultSelected);
    event_kind_names_round_trip(AnalyticsEventKind::PlaybackStarted);
    event_kind_names_round_trip(AnalyticsEventKind::PlaybackPaused);
    event_kind_names_round_trip(AnalyticsEventKind::PlaybackResumed);
    event_kind_names_round_trip(AnalyticsEventKind::PlaybackSkipped);
    event_kind_names_round_trip(AnalyticsEventKind::PlaybackCompleted);
    event_kind_names_round_trip(AnalyticsEventKind::ListenQualified);
    event_kind_names_round_trip(AnalyticsEventKind::SpotifyApiFinished);
    event_source_names_round_trip(AnalyticsSource::Cli);
    event_source_names_round_trip(AnalyticsSource::Tui);
    event_source_names_round_trip(AnalyticsSource::SpotifyApi);
    event_source_names_round_trip(AnalyticsSource::Daemon);
}

/// A number is recorded as its numeral; a text that is not there as null.
pub proof fn values_are_recorded_as_they_are(n: int, o: Option<Seq<char>>)
    ensures
        n >= 0 ==> json_int(n) == JsonModel::Number(decimal(n as nat)),
        n < 0 ==> json_int(n) == JsonModel::Number(seq!['-'] + decimal((-n) as nat)),
        o is Some ==> json_opt_text(o) == JsonModel::Text(o->0),
        o is None ==> json_opt_text(o) == JsonModel::Null,
{
}

/// Queries, digests, listens and paths are recorded as is told of them.
pub proof fn records_are_made_as_told()
    ensures
        forall|query: &str, answer: String|
            #[trigger] call_ensures(normalize_search_query, (query,), answer) ==> {
                &&& answer@ == normalized_query(query@)
            },
        forall|bytes: &[u8], answer: String|
            #[trigger] call_ensures(hex_text, (bytes,), answer) ==> {
                &&& answer@ == hex(bytes@)
            },
        forall|value: &str, answer: String|
            #[trigger] call_ensures(sha256_hex, (value,), answer) ==> {
                &&& answer@ == hex(sha256(encode_utf8(value@)))
                &&& answer@.len() == 64
            },
        forall|
            source: AnalyticsSource,
            query: &str,
            query_hash: String,
            result_count: usize,
            latency_ms: u128,
            occurred_at_ms: i64,
            answer: AnalyticsEvent,
        |
            #[trigger] call_ensures(
                search_event_with_hash,
                (source, query, query_hash, result_count, latency_ms, occurred_at_ms),
                answer,
            ) && (latency_ms <= u64::MAX) ==> {
                &&& answer@ == search_event(
                    source,
                    query@,
                    query_hash@,
                    result_count as int,
                    latency_ms as int,
                    occurred_at_ms,
                )
            },
        forall|duration_ms: i64, audible_ms: i64, answer: Qualification|
            #[trigger] call_ensures(qualify_listen, (duration_ms, audible_ms), answer) ==> {
                &&& answer.threshold_ms == listen_threshold(duration_ms as int)
                &&& answer.qualified == (duration_ms > 30_000 && audible_ms >= listen_threshold(
                    duration_ms as int,
                ))
                &&& answer.rule_version == 1
            },
        forall|path: &str, answer: String|
            #[trigger] call_ensures(redact_spotify_path, (path,), answer) ==> {
                &&& answer@ == redacted_path(path@)
            },
{
}

} // verus!
