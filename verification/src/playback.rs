//! Playback requests: seeking, handing over to another device, and choosing
//! an audio output.

use vstd::prelude::*;
use vstd::string::*;

use crate::actions::CommandKind;
use crate::exchange::{PlayRequest, PlaySource, TransportDevice};
use crate::failure::{Failure, FailureModel, bad_input};
use crate::media::{Device, DeviceModel, Playback, PlaybackModel, PlaybackStateSource, copy_item};
use crate::provider::ProviderId;
use crate::text::{
    concat3, contains_text, has_part, lemma_seq_view_push, lemma_texts_push, list_has, opt_str,
    opt_text, opt_view, same_opt_text, same_text, seq_view, stands_at, texts,
};
use crate::uri::{ResourceUri, UriErrorModel, UriModel, parsed_uri};

verus! {

broadcast use {lemma_seq_view_push, lemma_texts_push};

// ---------------------------------------------------------------------------
// Seeking
// ---------------------------------------------------------------------------

/// A position as the signed range counts it: those beyond its end come round
/// at its start.
pub open spec fn signed_position(progress_ms: u64) -> int {
    if progress_ms <= i64::MAX {
        progress_ms as int
    } else {
        progress_ms - u64::MAX - 1
    }
}

/// Where a relative seek ends up: not before the start, not behind the end of
/// an item of known length, and within the signed range of positions.
pub open spec fn seek_target(duration_ms: u64, progress_ms: u64, offset_ms: i64) -> int {
    let sum = signed_position(progress_ms) + offset_ms;
    let wanted = if sum < 0 {
        0
    } else if sum > i64::MAX {
        i64::MAX as int
    } else {
        sum
    };
    if duration_ms > 0 && wanted > duration_ms {
        duration_ms as int
    } else {
        wanted
    }
}

/// The absolute position that a relative seek means; it takes an item to seek
/// in.
pub fn resolve_relative_seek(
    item_duration_ms: Option<u64>,
    progress_ms: u64,
    offset_ms: i64,
) -> (r: Result<u64, Failure>)
    ensures
        match r {
            Ok(position) => item_duration_ms is Some && position == seek_target(
                item_duration_ms->0,
                progress_ms,
                offset_ms,
            ),
            Err(error) => item_duration_ms is None && error@ == FailureModel::Refused(
                "invalid request: seek requires an active track"@,
            ),
        },
{
    let duration_ms: u64 = match item_duration_ms {
        Some(duration) => duration,
        None => return Err(Failure::refused("invalid request: seek requires an active track")),
    };
    let current: i128 = if progress_ms <= i64::MAX as u64 {
        progress_ms as i128
    } else {
        progress_ms as i128 - u64::MAX as i128 - 1
    };
    let sum: i128 = current + offset_ms as i128;
    let target: u64 = if sum < 0 {
        0
    } else if sum > i64::MAX as i128 {
        i64::MAX as u64
    } else {
        sum as u64
    };
    if duration_ms > 0 && target > duration_ms {
        Ok(duration_ms)
    } else {
        Ok(target)
    }
}

// ---------------------------------------------------------------------------
// What a command plays
// ---------------------------------------------------------------------------

/// The URI that a command starts, if it starts one.
pub open spec fn started_uri(kind: CommandKind) -> Option<Seq<char>> {
    match kind {
        CommandKind::PlayUri { uri, .. } => Some(uri@),
        CommandKind::PlayItem { item } => Some(item.uri@),
        _ => None,
    }
}

/// The URI that a command starts, if it starts one.
pub fn queue_context_uri(kind: &CommandKind) -> (r: Option<String>)
    ensures
        opt_text(r) == started_uri(*kind),
{
    match kind {
        CommandKind::PlayUri { uri, .. } => Some(uri.clone()),
        CommandKind::PlayItem { item } => Some(item.uri.clone()),
        _ => None,
    }
}

/// What a listen is counted under: the collection that was asked for, else
/// what is started. A command that starts nothing leaves it as it was.
pub fn analytics_context(kind: &CommandKind, requested_context: Option<&str>) -> (r: Option<String>)
    ensures
        opt_text(r) == match *kind {
            CommandKind::PlayUri { uri, .. } => match requested_context {
                Some(context) => Some(context@),
                None => Some(uri@),
            },
            _ => started_uri(*kind),
        },
{
    match kind {
        CommandKind::PlayUri { uri, .. } => match requested_context {
            Some(context) => Some(context.to_owned()),
            None => Some(uri.clone()),
        },
        _ => queue_context_uri(kind),
    }
}

/// Whether the queue has to be fetched again after a command: it moved to
/// another track, and what came back says nothing of the queue.
pub fn queue_refresh_wanted(action: &str, queue_in_result: bool) -> (r: bool)
    ensures
        r == (!queue_in_result && (action@ == "next"@ || action@ == "previous"@)),
{
    !queue_in_result && (same_text(action, "next") || same_text(action, "previous"))
}

/// Whose sign-in a command needs.
#[derive(Clone, Debug, PartialEq, Eq)]
pub enum AuthGate {
    /// That of the configured provider of Spotify resources.
    Spotify,
    /// That of the provider of this id.
    Provider(ProviderId),
    /// That of the provider whose transport is active, or else the default.
    Active,
}

/// Whose sign-in a command needs: that of the provider of what it plays, or of
/// what plays already.
pub fn auth_gate(play_uri: Option<&str>) -> (r: Result<AuthGate, Failure>)
    ensures
        match play_uri {
            None => r matches Ok(gate) && gate is Active,
            Some(text) => match parsed_uri(text@) {
                Err(error) => r is Err && r->Err_0@ == FailureModel::Uri(error),
                Ok(uri) => if uri.scheme == "spotify"@ {
                    r matches Ok(gate) && gate is Spotify
                } else {
                    r matches Ok(AuthGate::Provider(id)) && id@ == uri.scheme
                },
            },
        },
{
    match play_uri {
        None => Ok(AuthGate::Active),
        Some(text) => match ResourceUri::parse(text) {
            Err(error) => Err(Failure::Uri(error)),
            Ok(uri) => {
                let scheme = uri.scheme();
                if same_text(scheme.label(), "spotify") {
                    Ok(AuthGate::Spotify)
                } else {
                    Ok(AuthGate::Provider(ProviderId::of_scheme(scheme)))
                }
            },
        },
    }
}

// ---------------------------------------------------------------------------
// Handing over
// ---------------------------------------------------------------------------

/// Whether a device of that id is in a list.
pub open spec fn has_device(devices: Seq<DeviceModel>, id: Option<Seq<char>>) -> bool {
    exists|i: int| 0 <= i < devices.len() && (#[trigger] devices[i]).id == id
}

fn device_listed(devices: &[Device], id: &Option<String>) -> (r: bool)
    ensures
        r == has_device(seq_view(devices@), opt_text(*id)),
{
    let mut i: usize = 0;
    while i < devices.len()
        invariant
            i <= devices@.len(),
            forall|k: int| 0 <= k < i ==> (#[trigger] seq_view(devices@)[k]).id != opt_text(*id),
        decreases devices@.len() - i,
    {
        if same_opt_text(&devices[i].id, id) {
            assert(seq_view(devices@)[i as int].id == opt_text(*id));
            return true;
        }
        i = i + 1;
    }
    false
}

/// The devices with the embedded one among them.
pub fn with_own_device(devices: Vec<Device>, own: Option<Device>) -> (r: Vec<Device>)
    ensures
        r@ == match own {
            Some(device) => if has_device(seq_view(devices@), device@.id) {
                devices@
            } else {
                devices@.push(device)
            },
            None => devices@,
        },
{
    let mut devices = devices;
    if let Some(device) = own {
        if !device_listed(devices.as_slice(), &device.id) {
            devices.push(device);
        }
    }
    devices
}

/// What is said of a device that cannot be handed over to.
pub open spec fn unreachable_device(name: Seq<char>, id: Option<Seq<char>>) -> Seq<char> {
    if id is Some && has_part(id->0, "_amzn_"@) {
        "\""@ + name
            + "\" can't be started from here — Alexa/Echo speakers must be started in Alexa (or the Spotify app) first, then transfer."@
    } else {
        "\""@ + name + "\" is offline or unavailable to Spotify right now."@
    }
}

/// What is said of a device that cannot be handed over to. Echo speakers are
/// listed, but only Alexa can start them.
pub fn transfer_hint(device_name: &str, device_id: Option<&str>) -> (r: String)
    ensures
        r@ == unreachable_device(device_name@, opt_str(device_id)),
{
    let is_echo = match device_id {
        Some(id) => contains_text(id, "_amzn_"),
        None => false,
    };
    if is_echo {
        concat3(
            "\"",
            device_name,
            "\" can't be started from here — Alexa/Echo speakers must be started in Alexa (or the Spotify app) first, then transfer.",
        )
    } else {
        concat3("\"", device_name, "\" is offline or unavailable to Spotify right now.")
    }
}

/// Whether a playback state shows a device of that id.
pub open spec fn shows_device(playback: Option<PlaybackModel>, id: Option<Seq<char>>) -> bool {
    match playback {
        Some(playback) => match playback.device {
            Some(device) => device.id == id,
            None => id is None,
        },
        None => false,
    }
}

/// Whether the current track has to be played again on the device that was
/// handed over to: something played, the device is another one and did not
/// take over, and both it and the track are known.
pub open spec fn needs_replay(
    before: PlaybackModel,
    result: Option<PlaybackModel>,
    target_id: Option<Seq<char>>,
    to_own_device: bool,
) -> bool {
    before.is_playing && !to_own_device && !shows_device(result, target_id) && target_id is Some
        && before.item is Some
}

/// The request that plays the current track again on the device that was
/// handed over to, where it did not take over by itself.
pub fn replay_after_transfer(
    before: &Playback,
    result: &Option<Playback>,
    target_id: &Option<String>,
    to_own_device: bool,
) -> (r: Result<Option<PlayRequest>, Failure>)
    ensures
        ({
            let needed = needs_replay(
                before@,
                opt_view(*result),
                opt_text(*target_id),
                to_own_device,
            );
            match r {
                Ok(None) => !needed,
                Ok(Some(request)) => needed && parsed_uri(before@.item->0.uri) == Ok::<
                    UriModel,
                    UriErrorModel,
                >(request.start_uri@) && request.source is Single && request.position_ms
                    == before@.progress_ms && (request.device matches TransportDevice::Id(id)
                    && Some(id@) == opt_text(*target_id)),
                Err(error) => needed && (parsed_uri(before@.item->0.uri) matches Err(uri_error)
                    && error@ == FailureModel::Uri(uri_error)),
            }
        }),
{
    if !before.is_playing || to_own_device {
        return Ok(None);
    }
    let target_active = match result {
        Some(playback) => match &playback.device {
            Some(device) => same_opt_text(&device.id, target_id),
            None => target_id.is_none(),
        },
        None => false,
    };
    if target_active {
        return Ok(None);
    }
    match (target_id, &before.item) {
        (Some(id), Some(item)) => match ResourceUri::parse(item.uri.as_str()) {
            Ok(start_uri) => Ok(
                Some(
                    PlayRequest {
                        start_uri,
                        source: PlaySource::Single,
                        device: TransportDevice::Id(id.clone()),
                        position_ms: before.progress_ms,
                    },
                ),
            ),
            Err(error) => Err(Failure::Uri(error)),
        },
        _ => Ok(None),
    }
}

/// What plays once the current track plays on the device that was handed over
/// to.
pub fn playback_on(before: &Playback, device: &Device, now_ms: i64) -> (r: Playback)
    ensures
        r@ == (PlaybackModel {
            item: before@.item,
            device: Some(device@),
            is_playing: true,
            progress_ms: before@.progress_ms,
            shuffle: before@.shuffle,
            repeat: before@.repeat,
            sampled_at_ms: Some(now_ms),
            provider_timestamp_ms: None,
            source: Some(PlaybackStateSource::CommandResult),
            playback_speed: None,
        }),
{
    Playback {
        item: copy_item(&before.item),
        device: Some(device.clone()),
        is_playing: true,
        progress_ms: before.progress_ms,
        shuffle: before.shuffle,
        repeat: before.repeat,
        sampled_at_ms: Some(now_ms),
        provider_timestamp_ms: None,
        source: Some(PlaybackStateSource::CommandResult),
        playback_speed: None,
    }
}

// ---------------------------------------------------------------------------
// Audio outputs
// ---------------------------------------------------------------------------

/// Rejects an audio output that is not there.
pub fn require_audio_output(requested: &str, outputs: &[String]) -> (r: Result<(), Failure>)
    ensures
        match r {
            Ok(_) => texts(outputs@).contains(requested@),
            Err(error) => !texts(outputs@).contains(requested@) && error@ == bad_input(
                "device"@,
                "audio output `"@ + requested@ + "` is not available"@,
            ),
        },
{
    if list_has(outputs, requested) {
        Ok(())
    } else {
        let message = concat3("audio output `", requested, "` is not available");
        Err(Failure::invalid_input("device", message.as_str()))
    }
}

/// Where playback goes on after an audio output was changed: the position as
/// the player counts it, or the start where it is too far along for that.
pub fn resume_position(progress_ms: u64) -> (r: u32)
    ensures
        r == if progress_ms <= u32::MAX {
            progress_ms
        } else {
            0
        },
{
    if progress_ms <= u32::MAX as u64 {
        progress_ms as u32
    } else {
        0
    }
}

/// What is said after an audio output was changed. `resumed` says whether
/// what played was brought back, where something did.
pub fn audio_output_message(device: Option<&str>, resumed: Option<bool>) -> (r: String)
    ensures
        r@ == (match device {
            Some(name) => "audio output set to \""@ + name@ + "\""@,
            None => "audio output reset to the system default"@,
        }) + (match resumed {
            Some(true) => "; playback resumed"@,
            Some(false) => "; playback could not be resumed automatically"@,
            None => ""@,
        }),
{
    let mut message = match device {
        Some(name) => concat3("audio output set to \"", name, "\""),
        None => "audio output reset to the system default".to_owned(),
    };
    match resumed {
        Some(true) => message.append("; playback resumed"),
        Some(false) => message.append("; playback could not be resumed automatically"),
        None => message.append(""),
    }
    message
}

// ---------------------------------------------------------------------------
// Laws
// ---------------------------------------------------------------------------

/// A relative seek lands inside the item, a seek by nothing stays where it is
/// inside the item and the signed range, and a later offset never lands
/// earlier.
pub proof fn relative_seeks_stay_inside(
    duration_ms: u64,
    progress_ms: u64,
    offset_ms: i64,
    later_ms: i64,
)
    requires
        offset_ms <= later_ms,
    ensures
        0 <= seek_target(duration_ms, progress_ms, offset_ms),
        duration_ms > 0 ==> seek_target(duration_ms, progress_ms, offset_ms) <= duration_ms,
        progress_ms <= i64::MAX && (duration_ms == 0 || progress_ms <= duration_ms) ==> seek_target(
            duration_ms,
            progress_ms,
            0,
        ) == progress_ms,
        seek_target(duration_ms, progress_ms, offset_ms) <= seek_target(
            duration_ms,
            progress_ms,
            later_ms,
        ),
{
}

/// A relative seek lands at exactly the position and the offset added up,
/// where that is neither before the start nor behind the end of an item of
/// known length; before the start it lands at the start, and behind the end at
/// the end.
pub proof fn relative_seeks_add_up(duration_ms: u64, progress_ms: u64, offset_ms: i64)
    requires
        progress_ms <= i64::MAX,
    ensures
        ({
            let sum = progress_ms + offset_ms;
            let landed = seek_target(duration_ms, progress_ms, offset_ms);
            &&& 0 <= sum <= i64::MAX && (duration_ms == 0 || sum <= duration_ms) ==> landed == sum
            &&& sum < 0 ==> landed == 0
            &&& 0 < duration_ms <= i64::MAX && sum > duration_ms ==> landed == duration_ms
            &&& (duration_ms == 0 || duration_ms > i64::MAX) && sum > i64::MAX ==> landed
                == i64::MAX
        }),
{
}

/// A position beyond the signed range is read as the negative one that its bits
/// stand for, so that only a larger offset lands behind the start.
pub proof fn positions_beyond_the_range_come_round(
    duration_ms: u64,
    progress_ms: u64,
    offset_ms: i64,
)
    requires
        progress_ms > i64::MAX,
    ensures
        ({
            let sum = progress_ms + offset_ms - 0x1_0000_0000_0000_0000;
            let landed = seek_target(duration_ms, progress_ms, offset_ms);
            &&& sum <= 0 ==> landed == 0
            &&& sum > 0 && (duration_ms == 0 || sum <= duration_ms) ==> landed == sum
            &&& sum > 0 && duration_ms > 0 && sum > duration_ms ==> landed == duration_ms
        }),
{
}

/// What a command starts is what it names, and a command that names nothing
/// starts nothing.
pub proof fn commands_start_what_they_name(kind: CommandKind)
    ensures
        kind matches CommandKind::PlayUri { uri, .. } ==> started_uri(kind) == Some(uri@),
        kind matches CommandKind::PlayItem { item } ==> started_uri(kind) == Some(item.uri@),
        !(kind is PlayUri) && !(kind is PlayItem) ==> started_uri(kind) is None,
{
}

/// A track is played again after a transfer exactly where something played,
/// another device was meant, both are known, and the answer does not show that
/// device.
pub proof fn silent_transfers_are_replayed(
    before: PlaybackModel,
    result: Option<PlaybackModel>,
    target_id: Seq<char>,
    to_own_device: bool,
)
    ensures
        needs_replay(before, result, Some(target_id), to_own_device) <==> before.is_playing
            && before.item is Some && !to_own_device && !(result is Some && result->0.device is Some
            && result->0.device->0.id == Some(target_id)),
        !needs_replay(before, result, None, to_own_device),
{
}

/// A list has a device exactly where some entry has its id.
pub proof fn devices_are_found_by_id(devices: Seq<DeviceModel>, id: Option<Seq<char>>, i: int)
    requires
        0 <= i < devices.len(),
    ensures
        devices[i].id == id ==> has_device(devices, id),
        (forall|k: int| 0 <= k < devices.len() ==> (#[trigger] devices[k]).id != id)
            ==> !has_device(devices, id),
{
}

/// Only an id that speaks of Amazon is told to be started in Alexa, and every
/// hint names the device.
pub proof fn hints_name_the_device(name: Seq<char>, id: Option<Seq<char>>)
    ensures
        unreachable_device(name, None) == "\""@ + name
            + "\" is offline or unavailable to Spotify right now."@,
        id is Some && (exists|at: int|
            0 <= at && at + 6 <= id->0.len() && #[trigger] id->0.subrange(at, at + 6) == "_amzn_"@)
            ==> unreachable_device(name, id) != unreachable_device(name, None),
        id is Some && !(exists|at: int|
            0 <= at && at + 6 <= id->0.len() && #[trigger] id->0.subrange(at, at + 6) == "_amzn_"@)
            ==> unreachable_device(name, id) == unreachable_device(name, None),
{
    reveal_strlit("_amzn_");
    reveal_strlit("\"");
    reveal_strlit("\" is offline or unavailable to Spotify right now.");
    reveal_strlit(
        "\" can't be started from here — Alexa/Echo speakers must be started in Alexa (or the Spotify app) first, then transfer.",
    );
    if id is Some {
        let part = "_amzn_"@;
        assert(part.len() == 6);
        if exists|at: int|
            0 <= at && at + 6 <= id->0.len() && #[trigger] id->0.subrange(at, at + 6) == part {
            let at = choose|at: int|
                0 <= at && at + 6 <= id->0.len() && #[trigger] id->0.subrange(at, at + 6) == part;
            assert(stands_at(id->0, part, at));
            let long = unreachable_device(name, id);
            let short = unreachable_device(name, None);
            assert(long.len() != short.len());
        } else if has_part(id->0, part) {
            let at = choose|at: int| stands_at(id->0, part, at);
            assert(id->0.subrange(at, at + 6) == part);
        }
    }
}

/// A speaker that only Alexa can start is told to be started there, by its
/// name.
pub proof fn echo_speakers_are_started_in_alexa(name: Seq<char>, id: Seq<char>, at: int)
    requires
        0 <= at,
        at + 6 <= id.len(),
        id.subrange(at, at + 6) == "_amzn_"@,
    ensures
        unreachable_device(name, Some(id)) == "\""@ + name
            + "\" can't be started from here — Alexa/Echo speakers must be started in Alexa (or the Spotify app) first, then transfer."@,
{
    reveal_strlit("_amzn_");
    assert(stands_at(id, "_amzn_"@, at));
}

/// What a relative seek answers with: an error without an item to seek in, and
/// otherwise the position and the offset added up, no earlier than the start
/// and no later than the end of an item of known length.
pub proof fn seeks_answer_with_the_sum(
    duration_ms: Option<u64>,
    progress_ms: u64,
    offset_ms: i64,
    answer: Result<u64, Failure>,
)
    requires
        call_ensures(resolve_relative_seek, (duration_ms, progress_ms, offset_ms), answer),
        progress_ms <= i64::MAX,
        progress_ms + offset_ms <= i64::MAX,
    ensures
        answer is Ok <==> duration_ms is Some,
        answer matches Ok(position) ==> {
            let sum = progress_ms + offset_ms;
            let end = duration_ms->0;
            &&& sum < 0 ==> position == 0
            &&& sum >= 0 && (end == 0 || sum <= end) ==> position == sum
            &&& end > 0 && sum > end ==> position == end
        },
        answer matches Err(error) ==> error@ == FailureModel::Refused(
            "invalid request: seek requires an active track"@,
        ),
{
}

/// What plays, and where it goes on playing, is answered as is told of it.
pub proof fn playback_calls_answer_as_told()
    ensures
        forall|kind: &CommandKind, answer: Option<String>|
            #[trigger] call_ensures(queue_context_uri, (kind,), answer) ==> {
                &&& opt_text(answer) == started_uri(*kind)
            },
        forall|devices: Vec<Device>, own: Option<Device>, answer: Vec<Device>|
            #[trigger] call_ensures(with_own_device, (devices, own), answer) ==> {
                &&& answer@ == match own {
                    Some(device) => if has_device(seq_view(devices@), device@.id) {
                        devices@
                    } else {
                        devices@.push(device)
                    },
                    None => devices@,
                }
            },
        forall|device_name: &str, device_id: Option<&str>, answer: String|
            #[trigger] call_ensures(transfer_hint, (device_name, device_id), answer) ==> {
                &&& answer@ == unreachable_device(device_name@, opt_str(device_id))
            },
        forall|
            before: &Playback,
            result: &Option<Playback>,
            target_id: &Option<String>,
            to_own_device: bool,
            answer: Result<Option<PlayRequest>, Failure>,
        |
            #[trigger] call_ensures(
                replay_after_transfer,
                (before, result, target_id, to_own_device),
                answer,
            ) ==> {
                &&& ({
                    let needed = needs_replay(
                        before@,
                        opt_view(*result),
                        opt_text(*target_id),
                        to_own_device,
                    );
                    match answer {
                        Ok(None) => !needed,
                        Ok(Some(request)) => needed && parsed_uri(before@.item->0.uri) == Ok::<
                            UriModel,
                            UriErrorModel,
                        >(request.start_uri@) && request.source is Single && request.position_ms
                            == before@.progress_ms && (request.device matches TransportDevice::Id(id)
                            && Some(id@) == opt_text(*target_id)),
                        Err(error) => needed && (parsed_uri(before@.item->0.uri) matches Err(uri_error)
                            && error@ == FailureModel::Uri(uri_error)),
                    }
                })
            },
{
}

/// What is shown after a transfer is what played before it, playing on the
/// device that was handed over to.
pub proof fn transfers_go_on_where_they_were(
    before: &Playback,
    device: &Device,
    now_ms: i64,
    answer: Playback,
)
    requires
        call_ensures(playback_on, (before, device, now_ms), answer),
    ensures
        answer@.item == before@.item,
        answer@.device == Some(device@),
        answer@.is_playing,
        answer@.progress_ms == before@.progress_ms,
        answer@.shuffle == before@.shuffle,
        answer@.repeat == before@.repeat,
        answer@.sampled_at_ms == Some(now_ms),
{
}

/// The own device is listed once, behind the others where it was not among
/// them, and no other device is lost.
pub proof fn the_own_device_is_listed(
    devices: Vec<Device>,
    own: Device,
    answer: Vec<Device>,
    i: int,
)
    requires
        call_ensures(with_own_device, (devices, Some(own)), answer),
        0 <= i < devices@.len(),
    ensures
        answer@[i] == devices@[i],
        exists|k: int| 0 <= k < answer@.len() && (#[trigger] answer@[k])@.id == own@.id,
        devices@[i]@.id == own@.id ==> answer@ == devices@,
        answer@.len() <= devices@.len() + 1,
{
    let listed = seq_view(devices@);
    assert(listed[i] == devices@[i]@);
    if has_device(listed, own@.id) {
        let k = choose|k: int| 0 <= k < listed.len() && (#[trigger] listed[k]).id == own@.id;
        assert(answer@[k]@.id == own@.id);
    } else {
        assert(answer@[devices@.len() as int]@.id == own@.id);
    }
}

/// A command needs the sign-in of the provider of what it plays, which for
/// Spotify resources is the configured one, and of what plays already where it
/// names nothing.
pub proof fn sign_ins_follow_what_is_played(
    play_uri: Option<&str>,
    answer: Result<AuthGate, Failure>,
)
    requires
        call_ensures(auth_gate, (play_uri,), answer),
    ensures
        play_uri is None <==> answer is Ok && answer->Ok_0 is Active,
        play_uri matches Some(text) ==> {
            &&& answer is Ok <==> parsed_uri(text@) is Ok
            &&& answer is Ok ==> (answer->Ok_0 is Spotify <==> parsed_uri(text@)->Ok_0.scheme
                == "spotify"@)
            &&& answer matches Ok(AuthGate::Provider(id)) ==> id@ == parsed_uri(text@)->Ok_0.scheme
        },
{
}

/// The queue is fetched again after a skip that did not bring one, and only
/// then; a position is kept where the player can count it, and an audio output
/// is taken where it is listed.
pub proof fn skips_refresh_the_queue(
    action: &str,
    brought: bool,
    wanted: bool,
    progress_ms: u64,
    resumed: u32,
    requested: &str,
    outputs: &[String],
    output: Result<(), Failure>,
)
    requires
        call_ensures(queue_refresh_wanted, (action, brought), wanted),
        call_ensures(resume_position, (progress_ms,), resumed),
        call_ensures(require_audio_output, (requested, outputs), output),
    ensures
        brought ==> !wanted,
        !brought && (action@ == "next"@ || action@ == "previous"@) ==> wanted,
        wanted ==> action@ == "next"@ || action@ == "previous"@,
        progress_ms <= 4_294_967_295 ==> resumed == progress_ms,
        progress_ms > 4_294_967_295 ==> resumed == 0,
        output is Ok <==> exists|i: int|
            0 <= i < outputs@.len() && (#[trigger] outputs@[i])@ == requested@,
{
    let all = texts(outputs@);
    if all.contains(requested@) {
        let i = all.index_of(requested@);
        assert(outputs@[i]@ == requested@);
    }
    if exists|i: int| 0 <= i < outputs@.len() && (#[trigger] outputs@[i])@ == requested@ {
        let i = choose|i: int| 0 <= i < outputs@.len() && (#[trigger] outputs@[i])@ == requested@;
        assert(all[i] == requested@);
    }
}

} // verus!
