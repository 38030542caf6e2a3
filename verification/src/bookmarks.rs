//! Bookmarks: saved positions inside a media item.

use vstd::prelude::*;
use vstd::string::*;

use crate::failure::{Failure, FailureModel};
use crate::media::{MediaItem, MediaKind};
use crate::provider::kind_in;
use crate::text::{
    concat3, concat4, concat5, decimal, decimal2, is_white_space, lemma_trimmed_idempotent,
    opt_text, same_text, trim_text, trimmed, trimming_takes_white_ends, u64_text, u64_text2,
};
use crate::uri::{ResourceUri, UriModel, parsed_uri};

verus! {

/// A saved position inside a media item, with what the item looked like when
/// it was saved.
#[derive(Clone, Debug, PartialEq)]
pub struct Bookmark {
    pub id: String,
    pub media_uri: String,
    pub media_kind: MediaKind,
    pub name: String,
    pub subtitle: String,
    pub image_url: Option<String>,
    pub position_ms: u64,
    pub note: Option<String>,
    pub created_at_ms: i64,
}

/// What an item looks like.
#[derive(Clone, Debug, PartialEq)]
pub struct ItemSnapshot {
    pub kind: MediaKind,
    pub name: String,
    pub subtitle: String,
    pub image_url: Option<String>,
}

/// What an item looks like, as plain values.
pub struct SnapshotModel {
    pub kind: MediaKind,
    pub name: Seq<char>,
    pub subtitle: Seq<char>,
    pub image_url: Option<Seq<char>>,
}

impl View for ItemSnapshot {
    type V = SnapshotModel;

    open spec fn view(&self) -> SnapshotModel {
        SnapshotModel {
            kind: self.kind,
            name: self.name@,
            subtitle: self.subtitle@,
            image_url: opt_text(self.image_url),
        }
    }
}

/// A note without white space around it; a blank one is none.
pub open spec fn kept_note(note: Option<Seq<char>>) -> Option<Seq<char>> {
    match note {
        Some(text) => if trimmed(text).len() == 0 {
            None
        } else {
            Some(trimmed(text))
        },
        None => None,
    }
}

/// A note without white space around it; a blank one is none.
pub fn normalize_note(note: Option<String>) -> (r: Option<String>)
    ensures
        opt_text(r) == kept_note(opt_text(note)),
{
    match note {
        Some(text) => {
            let kept = trim_text(text.as_str());
            if kept.as_str().is_empty() {
                None
            } else {
                Some(kept)
            }
        },
        None => None,
    }
}

/// A note that is kept is kept as it stands when it is kept again.
pub proof fn kept_notes_are_fixed(note: Option<Seq<char>>)
    ensures
        kept_note(kept_note(note)) == kept_note(note),
{
    if let Some(text) = note {
        lemma_trimmed_idempotent(text);
    }
}

/// A position as `h:mm:ss`, or `m:ss` within the first hour.
pub open spec fn position_label(position_ms: nat) -> Seq<char> {
    let total = position_ms / 1000;
    let hours = total / 3600;
    let minutes = (total % 3600) / 60;
    let seconds = total % 60;
    if hours > 0 {
        decimal(hours) + ":"@ + decimal2(minutes) + ":"@ + decimal2(seconds)
    } else {
        decimal(minutes) + ":"@ + decimal2(seconds)
    }
}

/// A position as `h:mm:ss`, or `m:ss` within the first hour.
pub fn clock_label(position_ms: u64) -> (r: String)
    ensures
        r@ == position_label(position_ms as nat),
{
    let total: u64 = position_ms / 1000;
    let hours: u64 = total / 3600;
    let minutes: u64 = (total % 3600) / 60;
    let seconds: u64 = total % 60;
    let seconds_text = u64_text2(seconds);
    if hours > 0 {
        let hours_text = u64_text(hours);
        let minutes_text = u64_text2(minutes);
        concat5(hours_text.as_str(), ":", minutes_text.as_str(), ":", seconds_text.as_str())
    } else {
        let minutes_text = u64_text(minutes);
        concat3(minutes_text.as_str(), ":", seconds_text.as_str())
    }
}

/// What plays: the URI of the item and the position in it.
#[derive(Clone, Debug, PartialEq)]
pub struct PlayingItem {
    pub uri: String,
    pub progress_ms: u64,
}

/// What a bookmark is put on: the item that was named, at its start unless a
/// position was, or what plays, where it is unless a position was named.
pub open spec fn bookmark_target(
    media_uri: Option<Seq<char>>,
    position_ms: Option<u64>,
    playing: Option<(Seq<char>, u64)>,
) -> Result<(Seq<char>, u64), FailureModel> {
    match media_uri {
        Some(uri) => match parsed_uri(uri) {
            Err(error) => Err(FailureModel::Uri(error)),
            Ok(_) => Ok(
                (
                    uri,
                    match position_ms {
                        Some(ms) => ms,
                        None => 0,
                    },
                ),
            ),
        },
        None => match playing {
            Some((uri, progress)) => Ok(
                (
                    uri,
                    match position_ms {
                        Some(ms) => ms,
                        None => progress,
                    },
                ),
            ),
            None => Err(
                FailureModel::Refused(
                    "invalid request: nothing is playing; pass a media URI to bookmark"@,
                ),
            ),
        },
    }
}

/// What a bookmark is put on.
pub fn resolve_bookmark_target(
    media_uri: Option<String>,
    position_ms: Option<u64>,
    playing: Option<PlayingItem>,
) -> (r: Result<(String, u64), Failure>)
    ensures
        ({
            let expected = bookmark_target(
                opt_text(media_uri),
                position_ms,
                match playing {
                    Some(item) => Some((item.uri@, item.progress_ms)),
                    None => None,
                },
            );
            match r {
                Ok((uri, position)) => expected == Ok::<(Seq<char>, u64), FailureModel>(
                    (uri@, position),
                ),
                Err(error) => expected == Err::<(Seq<char>, u64), FailureModel>(error@),
            }
        }),
{
    match media_uri {
        Some(uri) => match ResourceUri::parse(uri.as_str()) {
            Err(error) => Err(Failure::Uri(error)),
            Ok(_) => Ok((uri, position_ms.unwrap_or(0))),
        },
        None => match playing {
            Some(item) => Ok((item.uri, position_ms.unwrap_or(item.progress_ms))),
            None => Err(
                Failure::refused(
                    "invalid request: nothing is playing; pass a media URI to bookmark",
                ),
            ),
        },
    }
}

/// Whether the provider is asked what an item looks like: only where the
/// snapshot shows no more than the bare id of a track or an episode, and the
/// provider can look such an item up. `lookup_kinds` is absent where there is
/// no provider to ask.
pub open spec fn lookup_wanted(
    uri: UriModel,
    snapshot: SnapshotModel,
    lookup_kinds: Option<Seq<MediaKind>>,
) -> bool {
    &&& snapshot.name == uri.id
    &&& snapshot.kind == MediaKind::Track || snapshot.kind == MediaKind::Episode
    &&& lookup_kinds is Some && lookup_kinds->0.contains(snapshot.kind)
}

/// Whether the provider is asked what an item looks like.
pub fn bookmark_lookup_wanted(
    uri: &str,
    snapshot: &ItemSnapshot,
    lookup_kinds: Option<&[MediaKind]>,
) -> (r: Result<bool, Failure>)
    ensures
        match parsed_uri(uri@) {
            Err(error) => r is Err && r->Err_0@ == FailureModel::Uri(error),
            Ok(resource) => r == Ok::<bool, Failure>(
                lookup_wanted(
                    resource,
                    snapshot@,
                    match lookup_kinds {
                        Some(kinds) => Some(kinds@),
                        None => None,
                    },
                ),
            ),
        },
{
    let resource = match ResourceUri::parse(uri) {
        Ok(resource) => resource,
        Err(error) => return Err(Failure::Uri(error)),
    };
    let unresolved = same_text(snapshot.name.as_str(), resource.bare_id());
    if !unresolved || !(snapshot.kind == MediaKind::Track || snapshot.kind == MediaKind::Episode) {
        return Ok(false);
    }
    match lookup_kinds {
        Some(kinds) => Ok(kind_in(kinds, &snapshot.kind)),
        None => Ok(false),
    }
}

/// What a bookmarked item looks like: as the provider shows it, where it
/// found it, else as it was known.
pub fn resolve_bookmark_snapshot(snapshot: ItemSnapshot, found: Option<MediaItem>) -> (r:
    ItemSnapshot)
    ensures
        r@ == match found {
            Some(item) => SnapshotModel {
                kind: item@.kind,
                name: item@.name,
                subtitle: item@.subtitle,
                image_url: item@.image_url,
            },
            None => snapshot@,
        },
{
    match found {
        Some(item) => ItemSnapshot {
            kind: item.kind,
            name: item.name,
            subtitle: item.subtitle,
            image_url: item.image_url,
        },
        None => snapshot,
    }
}

/// What is said of a bookmark that plays.
pub fn bookmark_playing_message(name: &str, position_ms: u64) -> (r: String)
    ensures
        r@ == "playing "@ + name@ + " from "@ + position_label(position_ms as nat),
{
    let label = clock_label(position_ms);
    concat4("playing ", name, " from ", label.as_str())
}

/// The failure of a bookmark that is not there.
pub fn bookmark_not_found(id: &str) -> (r: Failure)
    ensures
        r@ == FailureModel::Refused("bookmark "@ + id@ + " not found"@),
{
    Failure::Refused(concat3("bookmark ", id, " not found"))
}

/// A position of so many hours, minutes and seconds is shown as these, the
/// hours only where there are any; what is left of a second is not shown.
pub proof fn positions_are_shown_in_hours_minutes_and_seconds(
    hours: nat,
    minutes: nat,
    seconds: nat,
    ms: nat,
)
    requires
        minutes < 60,
        seconds < 60,
        ms < 1000,
    ensures
        ({
            let shown = position_label(1000 * (3600 * hours + 60 * minutes + seconds) + ms);
            &&& hours > 0 ==> shown == decimal(hours) + ":"@ + decimal2(minutes) + ":"@ + decimal2(
                seconds,
            )
            &&& hours == 0 ==> shown == decimal(minutes) + ":"@ + decimal2(seconds)
        }),
{
    let total = 3600 * hours + 60 * minutes + seconds;
    assert((1000 * total + ms) / 1000 == total);
    assert(total / 3600 == hours);
    assert(total % 3600 == 60 * minutes + seconds);
    assert((60 * minutes + seconds) / 60 == minutes);
    assert(total % 60 == seconds);
}

/// A note is kept without the white space around it, and not at all where it
/// holds nothing else.
pub proof fn notes_are_kept_unless_blank(text: Seq<char>)
    ensures
        kept_note(Some(text)) is None <==> forall|i: int|
            0 <= i < text.len() ==> is_white_space(#[trigger] text[i]),
        kept_note(Some(text)) is Some ==> kept_note(Some(text)) == Some(trimmed(text)),
        kept_note(None) is None,
{
    let ends = trimming_takes_white_ends(text);
    if trimmed(text).len() == 0 {
        assert(ends.0 == ends.1);
    } else {
        assert(!is_white_space(text[ends.0]));
    }
}

/// A bookmark goes on what was named, from its start, or on what is playing,
/// at the position that it plays at; a position that was given is used either
/// way. It takes something that is named by a URI, or something that plays.
pub proof fn bookmarks_go_where_they_are_put(
    media_uri: Option<Seq<char>>,
    position_ms: Option<u64>,
    playing: Option<(Seq<char>, u64)>,
)
    ensures
        ({
            let r = bookmark_target(media_uri, position_ms, playing);
            &&& r is Ok <==> (media_uri is Some && parsed_uri(media_uri->0) is Ok) || (media_uri
                is None && playing is Some)
            &&& r is Ok && media_uri is Some ==> (r->Ok_0).0 == media_uri->0
            &&& r is Ok && media_uri is None ==> (r->Ok_0).0 == (playing->0).0
            &&& r is Ok && position_ms is Some ==> (r->Ok_0).1 == position_ms->0
            &&& r is Ok && position_ms is None && media_uri is Some ==> (r->Ok_0).1 == 0
            &&& r is Ok && position_ms is None && media_uri is None ==> (r->Ok_0).1 == (playing->0).1
            &&& media_uri is Some && parsed_uri(media_uri->0) is Err ==> r->Err_0
                == FailureModel::Uri(parsed_uri(media_uri->0)->Err_0)
            &&& media_uri is None && playing is None ==> r->Err_0 == FailureModel::Refused(
                "invalid request: nothing is playing; pass a media URI to bookmark"@,
            )
        }),
{
}

/// A provider is asked about a track or an episode of which only the id is
/// known, where it can look such items up, and about nothing else.
pub proof fn bare_items_are_looked_up(
    uri: UriModel,
    snapshot: SnapshotModel,
    kinds: Option<Seq<MediaKind>>,
)
    ensures
        lookup_wanted(uri, snapshot, kinds) ==> snapshot.name == uri.id && kinds is Some && (
        snapshot.kind is Track || snapshot.kind is Episode),
        snapshot.name == uri.id && snapshot.kind is Track && kinds is Some && kinds->0.contains(
            MediaKind::Track,
        ) ==> lookup_wanted(uri, snapshot, kinds),
        snapshot.name == uri.id && snapshot.kind is Episode && kinds is Some && kinds->0.contains(
            MediaKind::Episode,
        ) ==> lookup_wanted(uri, snapshot, kinds),
        kinds is Some && !kinds->0.contains(snapshot.kind) ==> !lookup_wanted(uri, snapshot, kinds),
{
}

/// Notes, positions and targets of bookmarks are taken as is told of them.
pub proof fn bookmarks_are_made_as_told()
    ensures
        forall|note: Option<String>, answer: Option<String>|
            #[trigger] call_ensures(normalize_note, (note,), answer) ==> {
                &&& opt_text(answer) == kept_note(opt_text(note))
            },
        forall|position_ms: u64, answer: String|
            #[trigger] call_ensures(clock_label, (position_ms,), answer) ==> {
                &&& answer@ == position_label(position_ms as nat)
            },
        forall|
            media_uri: Option<String>,
            position_ms: Option<u64>,
            playing: Option<PlayingItem>,
            answer: Result<(String, u64), Failure>,
        |
            #[trigger] call_ensures(
                resolve_bookmark_target,
                (media_uri, position_ms, playing),
                answer,
            ) ==> {
                &&& ({
                    let expected = bookmark_target(
                        opt_text(media_uri),
                        position_ms,
                        match playing {
                            Some(item) => Some((item.uri@, item.progress_ms)),
                            None => None,
                        },
                    );
                    match answer {
                        Ok((uri, position)) => expected == Ok::<(Seq<char>, u64), FailureModel>(
                            (uri@, position),
                        ),
                        Err(error) => expected == Err::<(Seq<char>, u64), FailureModel>(error@),
                    }
                })
            },
        forall|
            uri: &str,
            snapshot: &ItemSnapshot,
            lookup_kinds: Option<&[MediaKind]>,
            answer: Result<bool, Failure>,
        |
            #[trigger] call_ensures(
                bookmark_lookup_wanted,
                (uri, snapshot, lookup_kinds),
                answer,
            ) ==> {
                &&& match parsed_uri(uri@) {
                    Err(error) => answer is Err && answer->Err_0@ == FailureModel::Uri(error),
                    Ok(resource) => answer == Ok::<bool, Failure>(
                        lookup_wanted(
                            resource,
                            snapshot@,
                            match lookup_kinds {
                                Some(kinds) => Some(kinds@),
                                None => None,
                            },
                        ),
                    ),
                }
            },
{
}

} // verus!
