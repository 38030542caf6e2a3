//! Administration: what a sync covers, when to look for updates, and what is
//! pruned.

use vstd::prelude::*;
use vstd::string::*;

use crate::failure::{Failure, FailureModel, bad_input, not_offered};
use crate::provider::{ProviderError, ProviderErrorModel, ProviderId};
use crate::text::{concat3, concat5};

verus! {

/// What is synced.
#[derive(Clone, Copy, Debug, PartialEq, Eq, Structural)]
pub enum SyncTarget {
    All,
    Playback,
    Queue,
    Devices,
    Playlists,
    Recent,
    Library,
}

/// Whether a target is the transport itself.
pub open spec fn is_transport_target(target: SyncTarget) -> bool {
    target == SyncTarget::Playback || target == SyncTarget::Queue || target == SyncTarget::Devices
}

/// Whether a sync takes the provider's transport along, or why it cannot be
/// made. There is one transport view, that of the selected provider: another
/// provider's transport is never synced, and cannot be asked for by itself.
pub open spec fn sync_uses_transport(
    target: SyncTarget,
    provider: Seq<char>,
    selected: Seq<char>,
    transport_available: bool,
) -> Result<bool, FailureModel> {
    if is_transport_target(target) && !transport_available {
        Err(not_offered("provider `"@ + provider + "` transport sync"@))
    } else if is_transport_target(target) && provider != selected {
        Err(
            bad_input(
                "provider"@,
                "transport sync provider `"@ + provider + "` is inactive; active provider is `"@
                    + selected + "`"@,
            ),
        )
    } else {
        Ok(provider == selected && transport_available)
    }
}

/// The view of whether a sync takes the transport along.
pub open spec fn sync_view(r: Result<bool, Failure>) -> Result<bool, FailureModel> {
    match r {
        Ok(b) => Ok(b),
        Err(error) => Err(error@),
    }
}

/// Whether a sync takes the provider's transport along.
pub fn plan_sync(
    target: SyncTarget,
    provider: &ProviderId,
    selected: &ProviderId,
    transport_available: bool,
) -> (r: Result<bool, Failure>)
    ensures
        sync_view(r) == sync_uses_transport(target, provider@, selected@, transport_available),
{
    let direct = match target {
        SyncTarget::Playback => true,
        SyncTarget::Queue => true,
        SyncTarget::Devices => true,
        _ => false,
    };
    if direct && !transport_available {
        let operation = concat3("provider `", provider.as_str(), "` transport sync");
        return Err(Failure::Provider(ProviderError::Unsupported { operation }));
    }
    if direct && !provider.same(selected) {
        let message = concat5(
            "transport sync provider `",
            provider.as_str(),
            "` is inactive; active provider is `",
            selected.as_str(),
            "`",
        );
        return Err(Failure::invalid_input("provider", message.as_str()));
    }
    Ok(provider.same(selected) && transport_available)
}

/// How long a look for updates stays fresh.
pub const UPDATE_FRESH_MS: i64 = 21_600_000;

/// Whether it is time to look for updates again.
pub fn update_check_is_stale(checked_at_ms: Option<i64>, now_ms: i64) -> (r: bool)
    ensures
        r == match checked_at_ms {
            Some(checked) => now_ms - checked > 21_600_000,
            None => true,
        },
{
    match checked_at_ms {
        Some(checked) => now_ms as i128 - checked as i128 > UPDATE_FRESH_MS as i128,
        None => true,
    }
}

/// What a request to look for updates does.
#[derive(Clone, Copy, Debug, PartialEq, Eq, Structural)]
pub enum UpdateCheck {
    /// Look now, and wait for the answer.
    Now,
    /// Look in the background, and answer with what is known.
    InBackground,
    /// Answer with what is known.
    NotNeeded,
}

/// What a request to look for updates does.
pub fn plan_update_check(force: bool, checked_at_ms: Option<i64>, now_ms: i64) -> (r: UpdateCheck)
    ensures
        r == if force {
            UpdateCheck::Now
        } else if checked_at_ms is None || now_ms - checked_at_ms->0 > 21_600_000 {
            UpdateCheck::InBackground
        } else {
            UpdateCheck::NotNeeded
        },
{
    if force {
        UpdateCheck::Now
    } else if update_check_is_stale(checked_at_ms, now_ms) {
        UpdateCheck::InBackground
    } else {
        UpdateCheck::NotNeeded
    }
}

/// How long search runs are kept.
pub const SEARCH_CACHE_KEPT_MS: i64 = 2_592_000_000;

/// Up to when search runs are pruned.
pub fn search_prune_cutoff(older_than_ms: Option<i64>, now_ms: i64) -> (r: i64)
    requires
        older_than_ms is None ==> now_ms - 2_592_000_000 >= i64::MIN,
    ensures
        r == match older_than_ms {
            Some(cutoff) => cutoff as int,
            None => now_ms - 2_592_000_000,
        },
{
    match older_than_ms {
        Some(cutoff) => cutoff,
        None => now_ms - SEARCH_CACHE_KEPT_MS,
    }
}

/// A count of a query; a negative one counts as none.
pub open spec fn count_of(n: i64) -> int {
    if n < 0 {
        0
    } else {
        n as int
    }
}

/// How many rows a prune would delete.
pub fn rows_to_prune(progress: i64, events: u64, operations: i64) -> (r: u64)
    requires
        count_of(progress) + events + count_of(operations) <= u64::MAX,
    ensures
        r == count_of(progress) + events + count_of(operations),
{
    let p: u64 = if progress < 0 {
        0
    } else {
        progress as u64
    };
    let o: u64 = if operations < 0 {
        0
    } else {
        operations as u64
    };
    p + events + o
}

/// A sync of the transport needs a provider that has one and is the selected
/// one. Any other sync can be made, and takes the transport along exactly when
/// the provider is the selected one and has one.
pub proof fn only_the_selected_transport_is_synced(
    target: SyncTarget,
    provider: Seq<char>,
    selected: Seq<char>,
    available: bool,
)
    ensures
        ({
            let r = sync_uses_transport(target, provider, selected, available);
            let alone = target is Playback || target is Queue || target is Devices;
            let usable = provider == selected && available;
            &&& r is Ok <==> !alone || usable
            &&& r is Ok ==> r->Ok_0 == usable
            &&& alone && !available ==> r->Err_0 == FailureModel::Provider(
                ProviderErrorModel::Unsupported {
                    operation: "provider `"@ + provider + "` transport sync"@,
                },
            )
            &&& alone && available && provider != selected ==> r->Err_0 == FailureModel::Provider(
                ProviderErrorModel::InvalidInput {
                    field: "provider"@,
                    message: "transport sync provider `"@ + provider
                        + "` is inactive; active provider is `"@ + selected + "`"@,
                },
            )
        }),
{
}

/// A sync is planned as is told of it.
pub proof fn syncs_are_planned_as_told()
    ensures
        forall|
            target: SyncTarget,
            provider: &ProviderId,
            selected: &ProviderId,
            transport_available: bool,
            answer: Result<bool, Failure>,
        |
            #[trigger] call_ensures(
                plan_sync,
                (target, provider, selected, transport_available),
                answer,
            ) ==> {
                &&& sync_view(answer) == sync_uses_transport(target, provider@, selected@, transport_available)
            },
{
}

/// A look for updates that is forced is made now. Any other is made in the
/// background once the last one is more than six hours old, or there was none.
pub proof fn updates_are_looked_for_every_six_hours(
    force: bool,
    checked_at_ms: Option<i64>,
    now_ms: i64,
    answer: UpdateCheck,
    stale: bool,
)
    requires
        call_ensures(plan_update_check, (force, checked_at_ms, now_ms), answer),
        call_ensures(update_check_is_stale, (checked_at_ms, now_ms), stale),
    ensures
        answer is Now <==> force,
        checked_at_ms is None ==> stale,
        checked_at_ms matches Some(at) ==> (stale <==> now_ms - at > 6 * 60 * 60 * 1000),
        !force && stale ==> answer is InBackground,
        !force && !stale ==> answer is NotNeeded,
{
}

/// What is pruned from the searches is what is older than asked for, or older
/// than thirty days.
pub proof fn searches_are_kept_for_thirty_days(
    older_than_ms: Option<i64>,
    now_ms: i64,
    answer: i64,
)
    requires
        call_ensures(search_prune_cutoff, (older_than_ms, now_ms), answer),
        now_ms >= 0,
    ensures
        older_than_ms is Some ==> answer == older_than_ms->0,
        older_than_ms is None ==> now_ms - answer == 30 * 24 * 3600 * 1000,
{
}

} // verus!
