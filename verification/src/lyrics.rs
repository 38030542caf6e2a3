//! Lyrics and their timing.

use vstd::prelude::*;
use vstd::string::*;

use crate::text::{concat3, same_text};

verus! {

/// Where lyrics come from: the media provider itself, or the service that
/// serves all of them.
#[derive(Clone, Copy, Debug, PartialEq, Eq, Structural)]
pub enum LyricsProvider {
    Native,
    Lrclib,
}

impl LyricsProvider {
    pub open spec fn name(self) -> Seq<char> {
        match self {
            LyricsProvider::Native => "spotify-mercury"@,
            LyricsProvider::Lrclib => "lrclib"@,
        }
    }

    /// The provider that a name stands for; the native one has three.
    pub open spec fn named(s: Seq<char>) -> Option<LyricsProvider> {
        if s == "spotify-mercury"@ || s == "spotify"@ || s == "native"@ {
            Some(LyricsProvider::Native)
        } else if s == "lrclib"@ {
            Some(LyricsProvider::Lrclib)
        } else {
            None
        }
    }

    pub fn label(&self) -> (r: &'static str)
        ensures
            r@ == self.name(),
    {
        match self {
            LyricsProvider::Native => "spotify-mercury",
            LyricsProvider::Lrclib => "lrclib",
        }
    }

    /// The provider of a name, where it is known.
    pub fn from_label(value: &str) -> (r: Option<LyricsProvider>)
        ensures
            r == LyricsProvider::named(value@),
    {
        match LyricsProvider::parse(value) {
            Ok(provider) => Some(provider),
            Err(_) => None,
        }
    }

    /// The provider of a name; any other text is handed back in the error.
    pub fn parse(value: &str) -> (r: Result<LyricsProvider, LyricsProviderParseError>)
        ensures
            match r {
                Ok(provider) => LyricsProvider::named(value@) == Some(provider),
                Err(error) => LyricsProvider::named(value@) is None && error.value@ == value@,
            },
    {
        if same_text(value, "spotify-mercury") || same_text(value, "spotify") || same_text(
            value,
            "native",
        ) {
            Ok(LyricsProvider::Native)
        } else if same_text(value, "lrclib") {
            Ok(LyricsProvider::Lrclib)
        } else {
            Err(LyricsProviderParseError { value: value.to_owned() })
        }
    }
}

impl std::str::FromStr for LyricsProvider {
    type Err = LyricsProviderParseError;

    fn from_str(value: &str) -> (r: Result<Self, Self::Err>)
        ensures
            match r {
                Ok(provider) => LyricsProvider::named(value@) == Some(provider),
                Err(error) => LyricsProvider::named(value@) is None && error.value@ == value@,
            },
    {
        LyricsProvider::parse(value)
    }
}

/// Every lyrics provider is found again under its own name.
pub proof fn lyrics_provider_names_round_trip(provider: LyricsProvider)
    ensures
        LyricsProvider::named(provider.name()) == Some(provider),
{
    reveal_strlit("spotify-mercury");
    reveal_strlit("spotify");
    reveal_strlit("native");
    reveal_strlit("lrclib");
    assert("lrclib"@[0] != "native"@[0]);
    assert("lrclib"@ != "native"@);
    assert("lrclib"@.len() == 6 && "spotify-mercury"@.len() == 15 && "spotify"@.len() == 7);
}

/// A text that names no lyrics provider.
#[derive(Clone, Debug, PartialEq, Eq)]
pub struct LyricsProviderParseError {
    pub value: String,
}

impl LyricsProviderParseError {
    pub fn message(&self) -> (r: String)
        ensures
            r@ == "unknown lyrics provider `"@ + self.value@ + "`"@,
    {
        concat3("unknown lyrics provider `", self.value.as_str(), "`")
    }
}

/// A line of lyrics and when it is sung.
#[derive(Clone, Debug, PartialEq, Eq)]
pub struct LyricLine {
    pub start_ms: u64,
    pub text: String,
    pub is_rtl: bool,
}

/// Lyrics of a track, line by line.
#[derive(Clone, Debug, PartialEq, Eq)]
pub struct SyncedLyrics {
    pub provider: LyricsProvider,
    pub track_uri: String,
    pub lines: Vec<LyricLine>,
    pub fetched_at_ms: i64,
    pub synced: bool,
    pub language: Option<String>,
    pub source_url: Option<String>,
}

/// A position moved by a signed offset, within the range of the type.
pub open spec fn shifted(position_ms: u64, offset_ms: i64) -> u64 {
    if position_ms + offset_ms < 0 {
        0
    } else if position_ms + offset_ms > u64::MAX {
        u64::MAX
    } else {
        (position_ms + offset_ms) as u64
    }
}

fn shift(position_ms: u64, offset_ms: i64) -> (r: u64)
    ensures
        r == shifted(position_ms, offset_ms),
{
    if offset_ms < 0 {
        let back: u64 = if offset_ms == i64::MIN {
            9_223_372_036_854_775_808u64
        } else {
            (-offset_ms) as u64
        };
        position_ms.saturating_sub(back)
    } else {
        position_ms.saturating_add(offset_ms as u64)
    }
}

/// Whether lines stand in the order they are sung in.
pub open spec fn in_order(lines: Seq<LyricLine>) -> bool {
    forall|i: int, j: int| 0 <= i <= j < lines.len() ==> lines[i].start_ms <= lines[j].start_ms
}

/// Whether the lines that have started at a position all stand before those
/// that have not.
pub open spec fn split_at_position(lines: Seq<LyricLine>, position_ms: u64) -> bool {
    forall|i: int, j: int|
        0 <= i <= j < lines.len() && lines[j].start_ms <= position_ms ==> lines[i].start_ms
            <= position_ms
}

/// Lines in the order they are sung in are split at every position.
pub proof fn ordered_lines_are_split(lines: Seq<LyricLine>, position_ms: u64)
    requires
        in_order(lines),
    ensures
        split_at_position(lines, position_ms),
{
}

/// The line that is sung at a position: the last one that has started, and
/// the first one before any has.
///
/// The search halves the lines, so that it speaks only of lines that are
/// split at the position, as lines in their order are.
pub fn active_lyric_line_index(lines: &[LyricLine], position_ms: u64, offset_ms: i64) -> (r: Option<
    usize,
>)
    ensures
        r is None <==> lines@.len() == 0,
        r matches Some(i) ==> i < lines@.len(),
        r matches Some(i) ==> split_at_position(lines@, shifted(position_ms, offset_ms)) ==> {
            &&& forall|k: int|
                i < k < lines@.len() ==> (#[trigger] lines@[k]).start_ms > shifted(
                    position_ms,
                    offset_ms,
                )
            &&& lines@[i as int].start_ms <= shifted(position_ms, offset_ms) || i == 0
        },
{
    if lines.len() == 0 {
        return None;
    }
    let adjusted: u64 = shift(position_ms, offset_ms);
    let mut low: usize = 0;
    let mut high: usize = lines.len();
    while low < high
        invariant
            low <= high <= lines@.len(),
            adjusted == shifted(position_ms, offset_ms),
            split_at_position(lines@, adjusted) ==> forall|k: int|
                0 <= k < low ==> (#[trigger] lines@[k]).start_ms <= adjusted,
            split_at_position(lines@, adjusted) ==> forall|k: int|
                high <= k < lines@.len() ==> (#[trigger] lines@[k]).start_ms > adjusted,
        decreases high - low,
    {
        let middle: usize = low + (high - low) / 2;
        if lines[middle].start_ms <= adjusted {
            low = middle + 1;
        } else {
            high = middle;
        }
    }
    if low == 0 {
        Some(0)
    } else {
        Some(low - 1)
    }
}

/// An offset moves a position by itself, as far as the clock goes.
pub proof fn offsets_move_the_position(position_ms: u64, offset_ms: i64)
    ensures
        0 <= position_ms + offset_ms <= u64::MAX ==> shifted(position_ms, offset_ms) == position_ms
            + offset_ms,
        position_ms + offset_ms < 0 ==> shifted(position_ms, offset_ms) == 0,
        position_ms + offset_ms > u64::MAX ==> shifted(position_ms, offset_ms) == u64::MAX,
{
}

/// The native lyrics have three names and the others one; no other text names
/// a provider of lyrics.
pub proof fn lyrics_providers_have_their_names(s: Seq<char>)
    ensures
        LyricsProvider::named(s) == Some(LyricsProvider::Native) <==> s == "spotify-mercury"@ || s
            == "spotify"@ || s == "native"@,
        LyricsProvider::named(s) == Some(LyricsProvider::Lrclib) <==> s == "lrclib"@,
{
    lyrics_provider_names_round_trip(LyricsProvider::Lrclib);
}

/// The line that is answered for a position, of lines in their order, is the
/// last one that has started at it, and the first one before any has.
pub proof fn the_last_started_line_is_sung(
    lines: &[LyricLine],
    position_ms: u64,
    offset_ms: i64,
    answer: Option<usize>,
    k: int,
)
    requires
        call_ensures(active_lyric_line_index, (lines, position_ms, offset_ms), answer),
        in_order(lines@),
        0 <= k < lines@.len(),
        0 <= position_ms + offset_ms <= u64::MAX,
    ensures
        answer is Some && answer->0 < lines@.len(),
        k > answer->0 ==> lines@[k].start_ms > position_ms + offset_ms,
        k <= answer->0 && answer->0 > 0 ==> lines@[k].start_ms <= position_ms + offset_ms,
{
    ordered_lines_are_split(lines@, shifted(position_ms, offset_ms));
}

} // verus!
