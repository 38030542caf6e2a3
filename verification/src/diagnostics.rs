//! The doctor: what it checks, what it makes of the answers and how healthy
//! that leaves the daemon.

use vstd::prelude::*;
use vstd::string::*;

use crate::media::{Device, DeviceModel};
use crate::paging::{first_page_limit, page_limit};
use crate::provider::{ProviderCaps, ProviderError};
use crate::text::{
    chars_of, concat2, concat3, contains_text, decimal, from_range, has_part, lemma_seq_view_push,
    lemma_texts_push, list_has, lowered, opt_str, opt_text, opt_view, same_ignoring_case, same_text,
    seq_view, texts, to_lowered, u64_text,
};

verus! {

broadcast use {lemma_seq_view_push, lemma_texts_push};

/// How long the check of the credentials may take, in seconds.
pub const AUTH_CHECK_TIMEOUT_SECS: u64 = 3;

/// How long a check of the provider's API may take, in seconds.
pub const API_CHECK_TIMEOUT_SECS: u64 = 10;

// ---------------------------------------------------------------------------
// Reports
// ---------------------------------------------------------------------------

/// The answer of one check.
#[derive(Debug, PartialEq, Eq)]
pub struct DoctorCheck {
    pub name: String,
    pub ok: bool,
    pub message: String,
    pub elapsed_ms: u64,
}

/// A check as plain values.
pub struct CheckModel {
    pub name: Seq<char>,
    pub ok: bool,
    pub message: Seq<char>,
    pub elapsed_ms: u64,
}

impl View for DoctorCheck {
    type V = CheckModel;

    open spec fn view(&self) -> CheckModel {
        CheckModel {
            name: self.name@,
            ok: self.ok,
            message: self.message@,
            elapsed_ms: self.elapsed_ms,
        }
    }
}

impl Clone for DoctorCheck {
    fn clone(&self) -> (r: Self)
        ensures
            r@ == self@,
    {
        DoctorCheck {
            name: self.name.clone(),
            ok: self.ok,
            message: self.message.clone(),
            elapsed_ms: self.elapsed_ms,
        }
    }
}

fn make_check(name: &str, ok: bool, message: &str, elapsed_ms: u64) -> (r: DoctorCheck)
    ensures
        r@ == (CheckModel { name: name@, ok, message: message@, elapsed_ms }),
{
    DoctorCheck { name: name.to_owned(), ok, message: message.to_owned(), elapsed_ms }
}

/// What a finding is about.
#[derive(Clone, Copy, Debug, PartialEq, Eq, Structural)]
pub enum DoctorFindingCategory {
    Auth,
    Config,
    Daemon,
    Device,
    Network,
    Player,
}

impl DoctorFindingCategory {
    pub open spec fn name(self) -> Seq<char> {
        match self {
            DoctorFindingCategory::Auth => "Auth"@,
            DoctorFindingCategory::Config => "Config"@,
            DoctorFindingCategory::Daemon => "Daemon"@,
            DoctorFindingCategory::Device => "Device"@,
            DoctorFindingCategory::Network => "Network"@,
            DoctorFindingCategory::Player => "Player"@,
        }
    }

    pub fn label(self) -> (r: &'static str)
        ensures
            r@ == self.name(),
    {
        match self {
            DoctorFindingCategory::Auth => "Auth",
            DoctorFindingCategory::Config => "Config",
            DoctorFindingCategory::Daemon => "Daemon",
            DoctorFindingCategory::Device => "Device",
            DoctorFindingCategory::Network => "Network",
            DoctorFindingCategory::Player => "Player",
        }
    }
}

/// How bad a finding is.
#[derive(Clone, Copy, Debug, PartialEq, Eq, Structural)]
pub enum DoctorFindingSeverity {
    Info,
    Warning,
    Error,
}

/// Something that the doctor noticed, and what to do about it.
#[derive(Clone, Debug, PartialEq, Eq)]
pub struct DoctorFinding {
    pub category: DoctorFindingCategory,
    pub severity: DoctorFindingSeverity,
    pub message: String,
    pub remediation: Vec<String>,
}

/// A finding as plain values.
pub struct FindingModel {
    pub category: DoctorFindingCategory,
    pub severity: DoctorFindingSeverity,
    pub message: Seq<char>,
    pub remediation: Seq<Seq<char>>,
}

impl View for DoctorFinding {
    type V = FindingModel;

    open spec fn view(&self) -> FindingModel {
        FindingModel {
            category: self.category,
            severity: self.severity,
            message: self.message@,
            remediation: texts(self.remediation@),
        }
    }
}

/// How healthy everything is.
#[derive(Clone, Copy, Debug, PartialEq, Eq, Structural)]
pub enum HealthClass {
    Healthy,
    Degraded,
    Unhealthy,
}

impl HealthClass {
    pub open spec fn name(self) -> Seq<char> {
        match self {
            HealthClass::Healthy => "healthy"@,
            HealthClass::Degraded => "degraded"@,
            HealthClass::Unhealthy => "unhealthy"@,
        }
    }

    pub fn as_str(self) -> (r: &'static str)
        ensures
            r@ == self.name(),
    {
        match self {
            HealthClass::Healthy => "healthy",
            HealthClass::Degraded => "degraded",
            HealthClass::Unhealthy => "unhealthy",
        }
    }
}

/// How the sound of the embedded player flows.
#[derive(Clone, Copy, Debug, PartialEq, Eq, Structural)]
pub struct AudioHealth {
    pub connected: bool,
    pub we_are_active: bool,
    pub is_playing: bool,
    pub samples_advancing: bool,
    pub reconnect_attempts: u32,
    pub current_backoff_ms: u64,
    pub last_stall_ms: Option<i64>,
}

/// The daemon process.
#[derive(Clone, Debug, PartialEq, Eq)]
pub struct DaemonStatus {
    pub running: bool,
    pub socket_path: String,
    pub socket_exists: bool,
    pub socket_reachable: bool,
    pub stale_socket: bool,
    pub daemon_pid: Option<u32>,
    pub uptime_secs: Option<u64>,
    pub protocol_version: u32,
    pub daemon_version: Option<String>,
    pub daemon_build_id: Option<String>,
    pub audio_health: Option<AudioHealth>,
}

/// What a report says of the daemon.
pub struct DaemonModel {
    pub running: bool,
    pub socket_path: Seq<char>,
    pub socket_exists: bool,
    pub socket_reachable: bool,
    pub stale_socket: bool,
    pub daemon_pid: Option<u32>,
    pub uptime_secs: Option<u64>,
    pub protocol_version: u32,
    pub daemon_version: Option<Seq<char>>,
    pub daemon_build_id: Option<Seq<char>>,
    pub audio_health: Option<AudioHealth>,
}

impl View for DaemonStatus {
    type V = DaemonModel;

    open spec fn view(&self) -> DaemonModel {
        DaemonModel {
            running: self.running,
            socket_path: self.socket_path@,
            socket_exists: self.socket_exists,
            socket_reachable: self.socket_reachable,
            stale_socket: self.stale_socket,
            daemon_pid: self.daemon_pid,
            uptime_secs: self.uptime_secs,
            protocol_version: self.protocol_version,
            daemon_version: opt_text(self.daemon_version),
            daemon_build_id: opt_text(self.daemon_build_id),
            audio_health: self.audio_health,
        }
    }
}

/// A device in a report.
#[derive(Clone, Debug, PartialEq, Eq)]
pub struct DeviceSummary {
    pub name: String,
    pub kind: String,
    pub active: bool,
    pub restricted: bool,
    pub has_id: bool,
}

/// A device in a report, as plain values.
pub struct DeviceSummaryModel {
    pub name: Seq<char>,
    pub kind: Seq<char>,
    pub active: bool,
    pub restricted: bool,
    pub has_id: bool,
}

impl View for DeviceSummary {
    type V = DeviceSummaryModel;

    open spec fn view(&self) -> DeviceSummaryModel {
        DeviceSummaryModel {
            name: self.name@,
            kind: self.kind@,
            active: self.active,
            restricted: self.restricted,
            has_id: self.has_id,
        }
    }
}

/// The devices in a report.
#[derive(Clone, Debug, PartialEq, Eq)]
pub struct DeviceDiagnostics {
    pub preferred_configured: Option<String>,
    pub preferred_visible: bool,
    pub active_device: Option<DeviceSummary>,
    pub restricted_devices: Vec<DeviceSummary>,
    pub visible_unrestricted_devices: Vec<DeviceSummary>,
}

/// The devices in a report, as plain values.
pub struct DevicesModel {
    pub preferred_configured: Option<Seq<char>>,
    pub preferred_visible: bool,
    pub active_device: Option<DeviceSummaryModel>,
    pub restricted_devices: Seq<DeviceSummaryModel>,
    pub visible_unrestricted_devices: Seq<DeviceSummaryModel>,
}

impl View for DeviceDiagnostics {
    type V = DevicesModel;

    open spec fn view(&self) -> DevicesModel {
        DevicesModel {
            preferred_configured: opt_text(self.preferred_configured),
            preferred_visible: self.preferred_visible,
            active_device: opt_view(self.active_device),
            restricted_devices: seq_view(self.restricted_devices@),
            visible_unrestricted_devices: seq_view(self.visible_unrestricted_devices@),
        }
    }
}

/// How the daemon ties in with the desktop.
#[derive(Clone, Debug, PartialEq, Eq)]
pub struct SystemDiagnostics {
    pub media_controls_enabled: bool,
    pub media_controls_bus_name: Option<String>,
    pub hooks_enabled: bool,
    pub hook_command: Option<String>,
    pub hook_timeout_ms: Option<u64>,
    pub notifications_enabled: bool,
    pub discord_enabled: bool,
    pub discord_application_id: Option<String>,
}

/// How the daemon ties in with the desktop, as plain values.
pub struct SystemModel {
    pub media_controls_enabled: bool,
    pub media_controls_bus_name: Option<Seq<char>>,
    pub hooks_enabled: bool,
    pub hook_command: Option<Seq<char>>,
    pub hook_timeout_ms: Option<u64>,
    pub notifications_enabled: bool,
    pub discord_enabled: bool,
    pub discord_application_id: Option<Seq<char>>,
}

impl View for SystemDiagnostics {
    type V = SystemModel;

    open spec fn view(&self) -> SystemModel {
        SystemModel {
            media_controls_enabled: self.media_controls_enabled,
            media_controls_bus_name: opt_text(self.media_controls_bus_name),
            hooks_enabled: self.hooks_enabled,
            hook_command: opt_text(self.hook_command),
            hook_timeout_ms: self.hook_timeout_ms,
            notifications_enabled: self.notifications_enabled,
            discord_enabled: self.discord_enabled,
            discord_application_id: opt_text(self.discord_application_id),
        }
    }
}

/// What the doctor found.
#[derive(Clone, Debug, PartialEq, Eq)]
pub struct DoctorReport {
    pub healthy: bool,
    pub health_class: HealthClass,
    pub config_path: String,
    pub config_ok: bool,
    pub config_error: Option<String>,
    pub logs_path: String,
    pub client_id: Option<String>,
    pub client_secret_present: Option<bool>,
    pub redirect_uri: Option<String>,
    pub keychain_token: DoctorCheck,
    pub daemon: DaemonStatus,
    pub api_checks: Vec<DoctorCheck>,
    pub device_diagnostics: Option<DeviceDiagnostics>,
    pub recommended_next_steps: Vec<String>,
    pub findings: Vec<DoctorFinding>,
    pub system: Option<SystemDiagnostics>,
}

/// A report as plain values.
pub struct ReportModel {
    pub healthy: bool,
    pub health_class: HealthClass,
    pub config_path: Seq<char>,
    pub config_ok: bool,
    pub config_error: Option<Seq<char>>,
    pub logs_path: Seq<char>,
    pub client_id: Option<Seq<char>>,
    pub client_secret_present: Option<bool>,
    pub redirect_uri: Option<Seq<char>>,
    pub keychain_token: CheckModel,
    pub daemon: DaemonModel,
    pub api_checks: Seq<CheckModel>,
    pub device_diagnostics: Option<DevicesModel>,
    pub recommended_next_steps: Seq<Seq<char>>,
    pub findings: Seq<FindingModel>,
    pub system: Option<SystemModel>,
}

impl View for DoctorReport {
    type V = ReportModel;

    open spec fn view(&self) -> ReportModel {
        ReportModel {
            healthy: self.healthy,
            health_class: self.health_class,
            config_path: self.config_path@,
            config_ok: self.config_ok,
            config_error: opt_text(self.config_error),
            logs_path: self.logs_path@,
            client_id: opt_text(self.client_id),
            client_secret_present: self.client_secret_present,
            redirect_uri: opt_text(self.redirect_uri),
            keychain_token: self.keychain_token@,
            daemon: self.daemon@,
            api_checks: seq_view(self.api_checks@),
            device_diagnostics: opt_view(self.device_diagnostics),
            recommended_next_steps: texts(self.recommended_next_steps@),
            findings: seq_view(self.findings@),
            system: opt_view(self.system),
        }
    }
}

// ---------------------------------------------------------------------------
// Checks
// ---------------------------------------------------------------------------

/// A client id as a report may show it: its ends, or only that there is one.
pub open spec fn masked_client_id(id: Seq<char>) -> Seq<char> {
    if id.len() <= 8 {
        "present"@
    } else {
        id.take(4) + "..."@ + id.skip(id.len() - 4)
    }
}

/// A client id as a report may show it.
pub fn redacted_client_id(client_id: &str) -> (r: String)
    ensures
        r@ == masked_client_id(client_id@),
{
    let v = chars_of(client_id);
    let n: usize = v.len();
    if n <= 8 {
        return "present".to_owned();
    }
    let start = from_range(v.as_slice(), 0, 4);
    let end = from_range(v.as_slice(), n - 4, n);
    assert(start@ =~= client_id@.take(4));
    assert(end@ =~= client_id@.skip(n - 4));
    concat3(start.as_str(), "...", end.as_str())
}

/// Whether credentials are looked for: not under the fake provider, and
/// otherwise where the settings name a provider that signs in or cannot be
/// read.
pub fn auth_checks_required(
    fake_provider: bool,
    config_loaded: bool,
    signs_in_somewhere: bool,
) -> (r: bool)
    ensures
        r == (!fake_provider && (!config_loaded || signs_in_somewhere)),
{
    !fake_provider && (!config_loaded || signs_in_somewhere)
}

/// Whether requests go through the first-party application.
pub fn uses_first_party(
    auth_required: bool,
    env_override: Option<bool>,
    stored_first_party_only: bool,
) -> (r: bool)
    ensures
        r == (auth_required && match env_override {
            Some(explicit) => explicit,
            None => stored_first_party_only,
        }),
{
    auth_required && match env_override {
        Some(explicit) => explicit,
        None => stored_first_party_only,
    }
}

/// Whether first-party credentials are all there is and nothing overrules
/// them: a user with both kinds, or one who forces the other, is not stuck.
pub fn resolved_first_party_only(
    env_override: Option<bool>,
    stored_first_party_only: bool,
) -> (r: bool)
    ensures
        r == (stored_first_party_only && env_override != Some(false)),
{
    let resolved = match env_override {
        Some(explicit) => explicit,
        None => stored_first_party_only,
    };
    resolved && stored_first_party_only
}

/// The check of credentials that nobody needs.
pub fn skipped_auth_check(message: &str) -> (r: DoctorCheck)
    ensures
        r@ == (CheckModel { name: "auth token"@, ok: true, message: message@, elapsed_ms: 0 }),
{
    make_check("auth token", true, message, 0)
}

/// What looking for credentials came to.
#[derive(Clone, Debug, PartialEq, Eq)]
pub enum CredentialProbe {
    Found { status: String },
    Missing,
    Failed { error: String },
    TimedOut,
}

/// The check of the credentials.
pub fn auth_file_check(probe: CredentialProbe, elapsed_ms: u64) -> (r: DoctorCheck)
    ensures
        r@ == (CheckModel {
            name: "auth token"@,
            ok: probe is Found,
            message: match probe {
                CredentialProbe::Found { status } => status@,
                CredentialProbe::Missing => "missing; run `spotuify login`"@,
                CredentialProbe::Failed { error } => error@,
                CredentialProbe::TimedOut => "timed out after "@ + decimal(3) + "s"@,
            },
            elapsed_ms,
        }),
{
    match probe {
        CredentialProbe::Found { status } => make_check(
            "auth token",
            true,
            status.as_str(),
            elapsed_ms,
        ),
        CredentialProbe::Missing => make_check(
            "auth token",
            false,
            "missing; run `spotuify login`",
            elapsed_ms,
        ),
        CredentialProbe::Failed { error } => make_check(
            "auth token",
            false,
            error.as_str(),
            elapsed_ms,
        ),
        CredentialProbe::TimedOut => {
            let secs = u64_text(AUTH_CHECK_TIMEOUT_SECS);
            let message = concat3("timed out after ", secs.as_str(), "s");
            make_check("auth token", false, message.as_str(), elapsed_ms)
        },
    }
}

/// The check of something that a provider does not offer.
pub fn skipped_capability_check(name: &str) -> (r: DoctorCheck)
    ensures
        r@ == (CheckModel {
            name: name@,
            ok: true,
            message: "skipped: provider does not advertise this capability"@,
            elapsed_ms: 0,
        }),
{
    make_check(name, true, "skipped: provider does not advertise this capability", 0)
}

/// The check of something that is not asked for while a rate limit cools
/// down; the seconds left are rounded up.
pub fn skipped_rate_limit_check(name: &str, remaining_ms: u64) -> (r: DoctorCheck)
    requires
        remaining_ms <= u64::MAX - 999,
    ensures
        r@ == (CheckModel {
            name: name@,
            ok: false,
            message: "skipped; provider rate limit cooldown has "@ + decimal(
                ((remaining_ms + 999) / 1000) as nat,
            ) + "s remaining"@,
            elapsed_ms: 0,
        }),
{
    let secs = u64_text((remaining_ms + 999) / 1000);
    let message = concat3(
        "skipped; provider rate limit cooldown has ",
        secs.as_str(),
        "s remaining",
    );
    make_check(name, false, message.as_str(), 0)
}

/// Whether a message speaks of a rate limit, in any case of letters.
pub open spec fn speaks_of_rate_limit(message: Seq<char>) -> bool {
    has_part(lowered(message), "rate limit"@)
}

/// Whether a message speaks of a rate limit.
pub fn is_rate_limited(message: &str) -> (r: bool)
    ensures
        r == speaks_of_rate_limit(message@),
{
    let text = to_lowered(message);
    contains_text(text.as_str(), "rate limit")
}

/// Whether a check is to be recorded as a rate limit.
pub fn records_rate_limit(check: &DoctorCheck) -> (r: bool)
    ensures
        r == (!check.ok && speaks_of_rate_limit(check.message@)),
{
    !check.ok && is_rate_limited(check.message.as_str())
}

/// What a call to the provider's API came to.
#[derive(Clone, Debug, PartialEq, Eq)]
pub enum ApiOutcome {
    Answered,
    Failed { error: ProviderError },
    TimedOut,
}

/// The check of a call to the provider's API.
pub open spec fn api_check_of(name: Seq<char>, outcome: ApiOutcome, elapsed_ms: u64) -> CheckModel {
    CheckModel {
        name,
        ok: outcome is Answered,
        message: match outcome {
            ApiOutcome::Answered => "ok"@,
            ApiOutcome::Failed { error } => error@.sentence(),
            ApiOutcome::TimedOut => "timed out after "@ + decimal(10)
                + "s"@,
        },
        elapsed_ms,
    }
}

/// How long the provider asked to wait, in whole seconds and at least one.
pub open spec fn retry_after(outcome: ApiOutcome) -> Option<u64> {
    match outcome {
        ApiOutcome::Failed { error } => match error {
            ProviderError::RateLimited { retry_after_ms: Some(ms), .. } => Some(
                if ms / 1000 < 1 {
                    1
                } else {
                    ms / 1000
                },
            ),
            _ => None,
        },
        _ => None,
    }
}

/// The check of a call to the provider's API, and how long to wait before the
/// next one.
pub fn timed_api(name: &str, outcome: ApiOutcome, elapsed_ms: u64) -> (r: (
    DoctorCheck,
    Option<u64>,
))
    ensures
        r.0@ == api_check_of(name@, outcome, elapsed_ms),
        r.1 == retry_after(outcome),
{
    match outcome {
        ApiOutcome::Answered => (make_check(name, true, "ok", elapsed_ms), None),
        ApiOutcome::Failed { error } => {
            let message = error.message();
            let wait: Option<u64> = match &error {
                ProviderError::RateLimited { retry_after_ms: Some(ms), .. } => {
                    let secs: u64 = *ms / 1000;
                    if secs < 1 {
                        Some(1)
                    } else {
                        Some(secs)
                    }
                },
                _ => None,
            };
            (make_check(name, false, message.as_str(), elapsed_ms), wait)
        },
        ApiOutcome::TimedOut => {
            let secs = u64_text(API_CHECK_TIMEOUT_SECS);
            let message = concat3("timed out after ", secs.as_str(), "s");
            (make_check(name, false, message.as_str(), elapsed_ms), None)
        },
    }
}

// ---------------------------------------------------------------------------
// The plan of the API checks
// ---------------------------------------------------------------------------

/// A check of the provider's API that the doctor makes or leaves out. A list
/// is checked by one page of at most `limit` entries.
#[derive(Clone, Copy, Debug, PartialEq, Eq, Structural)]
pub enum ApiStep {
    Playback,
    Devices,
    Queue,
    Playlists { limit: u32 },
    PlaylistsUnsupported,
    RecentlyPlayed { limit: u32 },
    RecentlyPlayedUnsupported,
}

impl ApiStep {
    /// The name that the check is reported under.
    pub open spec fn name(self) -> Seq<char> {
        match self {
            ApiStep::Playback => "api playback"@,
            ApiStep::Devices => "api devices"@,
            ApiStep::Queue => "api queue"@,
            ApiStep::Playlists { .. } => "api playlists"@,
            ApiStep::PlaylistsUnsupported => "api playlists"@,
            ApiStep::RecentlyPlayed { .. } => "api recently played"@,
            ApiStep::RecentlyPlayedUnsupported => "api recently played"@,
        }
    }

    pub fn label(self) -> (r: &'static str)
        ensures
            r@ == self.name(),
    {
        match self {
            ApiStep::Playback => "api playback",
            ApiStep::Devices => "api devices",
            ApiStep::Queue => "api queue",
            ApiStep::Playlists { .. } => "api playlists",
            ApiStep::PlaylistsUnsupported => "api playlists",
            ApiStep::RecentlyPlayed { .. } => "api recently played",
            ApiStep::RecentlyPlayedUnsupported => "api recently played",
        }
    }

    /// The rate limit that the check is subject to, if any.
    pub fn rate_limit_domain(self) -> (r: Option<&'static str>)
        ensures
            opt_str(r) == match self {
                ApiStep::Playlists { .. } => Some("playlists"@),
                ApiStep::RecentlyPlayed { .. } => Some("recent"@),
                _ => None,
            },
    {
        match self {
            ApiStep::Playlists { .. } => Some("playlists"),
            ApiStep::RecentlyPlayed { .. } => Some("recent"),
            _ => None,
        }
    }
}

/// The checks of a provider, in order: those of its transport, where it has
/// one and offers them, then its playlists and what was recently played.
pub open spec fn planned_steps(transport_available: bool, caps: ProviderCaps) -> Seq<ApiStep> {
    let transport = if transport_available {
        match caps.transport {
            Some(t) => (if t.playback_state {
                seq![ApiStep::Playback]
            } else {
                Seq::empty()
            }) + (if t.devices {
                seq![ApiStep::Devices]
            } else {
                Seq::empty()
            }) + (if t.queue_read {
                seq![ApiStep::Queue]
            } else {
                Seq::empty()
            }),
            None => Seq::empty(),
        }
    } else {
        Seq::empty()
    };
    transport.push(
        if caps.playlists.list {
            ApiStep::Playlists { limit: page_limit(caps.playlists.list_max_page_size, 50) }
        } else {
            ApiStep::PlaylistsUnsupported
        },
    ).push(
        if caps.catalog.recently_played {
            ApiStep::RecentlyPlayed {
                limit: page_limit(caps.catalog.recently_played_max_page_size, 20),
            }
        } else {
            ApiStep::RecentlyPlayedUnsupported
        },
    )
}

/// The checks of a provider, in order.
pub fn plan_api_checks(transport_available: bool, caps: &ProviderCaps) -> (r: Vec<ApiStep>)
    ensures
        r@ == planned_steps(transport_available, *caps),
{
    let mut steps: Vec<ApiStep> = Vec::new();
    if transport_available {
        if let Some(transport) = &caps.transport {
            if transport.playback_state {
                steps.push(ApiStep::Playback);
            }
            if transport.devices {
                steps.push(ApiStep::Devices);
            }
            if transport.queue_read {
                steps.push(ApiStep::Queue);
            }
        }
    }
    let playlists = if caps.playlists.list {
        ApiStep::Playlists { limit: first_page_limit(caps.playlists.list_max_page_size, 50) }
    } else {
        ApiStep::PlaylistsUnsupported
    };
    let recent = if caps.catalog.recently_played {
        ApiStep::RecentlyPlayed {
            limit: first_page_limit(caps.catalog.recently_played_max_page_size, 20),
        }
    } else {
        ApiStep::RecentlyPlayedUnsupported
    };
    steps.push(playlists);
    steps.push(recent);
    assert(steps@ =~= planned_steps(transport_available, *caps));
    steps
}

/// The check that stands for the provider's API where no provider runs: with
/// credentials at hand it is passed over, without them it is left out.
pub fn offline_api_check(first_party: bool, auth_ok: bool) -> (r: Option<DoctorCheck>)
    ensures
        opt_view(r) == if !auth_ok {
            None
        } else {
            Some(
                CheckModel {
                    name: "provider api"@,
                    ok: true,
                    message: if first_party {
                        "skipped: provider API checks run through the daemon (start it and rerun, or use `spotuify status`)"@
                    } else {
                        "skipped: provider runtime unavailable outside the daemon"@
                    },
                    elapsed_ms: 0,
                },
            )
        },
{
    if !auth_ok {
        None
    } else if first_party {
        Some(
            make_check(
                "provider api",
                true,
                "skipped: provider API checks run through the daemon (start it and rerun, or use `spotuify status`)",
                0,
            ),
        )
    } else {
        Some(
            make_check(
                "provider api",
                true,
                "skipped: provider runtime unavailable outside the daemon",
                0,
            ),
        )
    }
}

// ---------------------------------------------------------------------------
// Devices
// ---------------------------------------------------------------------------

/// A device in a report.
pub open spec fn summary_of(device: DeviceModel) -> DeviceSummaryModel {
    DeviceSummaryModel {
        name: device.name,
        kind: device.kind,
        active: device.is_active,
        restricted: device.is_restricted,
        has_id: device.id is Some,
    }
}

/// The devices of one kind of access, in a report.
pub open spec fn summaries(devices: Seq<DeviceModel>, restricted: bool) -> Seq<DeviceSummaryModel>
    decreases devices.len(),
{
    if devices.len() == 0 {
        Seq::empty()
    } else {
        let rest = summaries(devices.drop_last(), restricted);
        if devices.last().is_restricted == restricted {
            rest.push(summary_of(devices.last()))
        } else {
            rest
        }
    }
}

/// The first device that is active.
pub open spec fn first_active(devices: Seq<DeviceModel>) -> Option<DeviceModel>
    decreases devices.len(),
{
    if devices.len() == 0 {
        None
    } else if devices[0].is_active {
        Some(devices[0])
    } else {
        first_active(devices.skip(1))
    }
}

/// Whether an unrestricted device of that name, case ignored, is there.
pub open spec fn name_visible(devices: Seq<DeviceModel>, name: Seq<char>) -> bool {
    exists|i: int|
        0 <= i < devices.len() && !(#[trigger] devices[i]).is_restricted && lowered(devices[i].name)
            == lowered(name)
}

/// The devices in a report.
pub open spec fn diagnosed(preferred: Option<Seq<char>>, devices: Seq<DeviceModel>) ->
    DevicesModel {
    DevicesModel {
        preferred_configured: preferred,
        preferred_visible: preferred is Some && name_visible(devices, preferred->0),
        active_device: match first_active(devices) {
            Some(device) => Some(summary_of(device)),
            None => None,
        },
        restricted_devices: summaries(devices, true),
        visible_unrestricted_devices: summaries(devices, false),
    }
}

fn device_summary(device: &Device) -> (r: DeviceSummary)
    ensures
        r@ == summary_of(device@),
{
    DeviceSummary {
        name: device.name.clone(),
        kind: device.kind.clone(),
        active: device.is_active,
        restricted: device.is_restricted,
        has_id: device.id.is_some(),
    }
}

/// The devices in a report: the preferred one, the active one, and all of
/// them by whether they can be controlled.
pub fn device_diagnostics(preferred: Option<&str>, devices: &[Device]) -> (r: DeviceDiagnostics)
    ensures
        r@ == diagnosed(opt_str(preferred), seq_view(devices@)),
{
    let ghost all = seq_view(devices@);
    let ghost wanted = opt_str(preferred);
    let mut visible = false;
    let mut active: Option<DeviceSummary> = None;
    let mut restricted: Vec<DeviceSummary> = Vec::new();
    let mut unrestricted: Vec<DeviceSummary> = Vec::new();
    let mut i: usize = 0;
    proof {
        assert(all.take(0) =~= Seq::<DeviceModel>::empty());
        assert(all.skip(0) =~= all);
        assert(seq_view(restricted@) =~= Seq::<DeviceSummaryModel>::empty());
        assert(seq_view(unrestricted@) =~= Seq::<DeviceSummaryModel>::empty());
    }
    while i < devices.len()
        invariant
            i <= devices@.len(),
            all == seq_view(devices@),
            wanted == opt_str(preferred),
            visible == (wanted is Some && exists|k: int|
                0 <= k < i && !(#[trigger] all[k]).is_restricted && lowered(all[k].name)
                    == lowered(wanted->0)),
            seq_view(restricted@) == summaries(all.take(i as int), true),
            seq_view(unrestricted@) == summaries(all.take(i as int), false),
            active is None ==> first_active(all) == first_active(all.skip(i as int)),
            active is Some ==> first_active(all) is Some && active->0@ == summary_of(
                first_active(all)->0,
            ),
        decreases devices@.len() - i,
    {
        let device = &devices[i];
        proof {
            assert(all[i as int] == device@);
            assert(all.take(i as int + 1).drop_last() =~= all.take(i as int));
            assert(all.take(i as int + 1).last() == device@);
            assert(all.skip(i as int)[0] == device@);
            assert(all.skip(i as int).skip(1) =~= all.skip(i as int + 1));
        }
        if let Some(name) = preferred {
            if !device.is_restricted && same_ignoring_case(device.name.as_str(), name) {
                visible = true;
            }
        }
        if active.is_none() && device.is_active {
            active = Some(device_summary(device));
        }
        if device.is_restricted {
            restricted.push(device_summary(device));
        } else {
            unrestricted.push(device_summary(device));
        }
        i = i + 1;
    }
    proof {
        assert(all.take(all.len() as int) =~= all);
        assert(all.skip(all.len() as int) =~= Seq::<DeviceModel>::empty());
    }
    DeviceDiagnostics {
        preferred_configured: match preferred {
            Some(name) => Some(name.to_owned()),
            None => None,
        },
        preferred_visible: visible,
        active_device: active,
        restricted_devices: restricted,
        visible_unrestricted_devices: unrestricted,
    }
}

// ---------------------------------------------------------------------------
// Redirect hosts
// ---------------------------------------------------------------------------

/// The host of a URL, as it is serialized; none where the text is no URL or
/// the URL has no host.
pub uninterp spec fn url_host(url: Seq<char>) -> Option<Seq<char>>;

/// `url::Url::parse` and `Url::host_str`: the host of the URL that a text
/// parses to, which depends on the text alone.
#[verifier::external_body]
fn url_host_of(url: &str) -> (r: Option<String>)
    ensures
        opt_text(r) == url_host(url@),
{
    url::Url::parse(url).ok()?.host_str().map(str::to_string)
}

/// A text without the given character at its start.
pub open spec fn strip_leading(s: Seq<char>, c: char) -> Seq<char>
    decreases s.len(),
{
    if s.len() > 0 && s[0] == c {
        strip_leading(s.skip(1), c)
    } else {
        s
    }
}

/// A text without the given character at its end.
pub open spec fn strip_trailing(s: Seq<char>, c: char) -> Seq<char>
    decreases s.len(),
{
    if s.len() > 0 && s.last() == c {
        strip_trailing(s.drop_last(), c)
    } else {
        s
    }
}

/// Whether a host is a name of the local machine that Spotify does not take:
/// `localhost`, or the address `::1`, in brackets or not.
pub open spec fn is_rejected_host(host: Seq<char>) -> bool {
    lowered(host) == lowered("localhost"@) || strip_trailing(strip_leading(host, '['), ']')
        == "::1"@
}

/// The rejected host among an optional one.
pub open spec fn rejected(host: Option<Seq<char>>) -> Option<Seq<char>> {
    match host {
        Some(h) => if is_rejected_host(h) {
            Some(h)
        } else {
            None
        },
        None => None,
    }
}

fn without_brackets(host: &str) -> (r: String)
    ensures
        r@ == strip_trailing(strip_leading(host@, '['), ']'),
{
    let v = chars_of(host);
    let mut i: usize = 0;
    assert(v@.skip(0) =~= v@);
    while i < v.len() && v[i] == '['
        invariant
            i <= v@.len(),
            v@ == host@,
            strip_leading(v@.skip(i as int), '[') == strip_leading(v@, '['),
        decreases v@.len() - i,
    {
        assert(v@.skip(i as int).skip(1) =~= v@.skip(i as int + 1));
        i = i + 1;
    }
    let ghost t = v@.skip(i as int);
    assert(strip_leading(v@, '[') == t);
    let mut j: usize = v.len();
    assert(t.take(t.len() as int) =~= t);
    while j > i && v[j - 1] == ']'
        invariant
            i <= j <= v@.len(),
            t == v@.skip(i as int),
            strip_trailing(t.take(j - i), ']') == strip_trailing(t, ']'),
        decreases j,
    {
        assert(t.take(j - i).drop_last() =~= t.take(j - i - 1));
        j = j - 1;
    }
    assert(t.take(j - i) =~= v@.subrange(i as int, j as int));
    from_range(v.as_slice(), i, j)
}

/// The host of a redirect URI, where Spotify does not take it.
pub fn rejected_redirect_host(host: Option<String>) -> (r: Option<String>)
    ensures
        opt_text(r) == rejected(opt_text(host)),
{
    match host {
        Some(host) => {
            let bare = without_brackets(host.as_str());
            if same_ignoring_case(host.as_str(), "localhost") || same_text(bare.as_str(), "::1") {
                Some(host)
            } else {
                None
            }
        },
        None => None,
    }
}

/// The host of a redirect URI, where Spotify does not take it.
pub fn redirect_host_rejected_by_spotify(redirect_uri: &str) -> (r: Option<String>)
    ensures
        opt_text(r) == rejected(url_host(redirect_uri@)),
{
    rejected_redirect_host(url_host_of(redirect_uri))
}

// ---------------------------------------------------------------------------
// Findings
// ---------------------------------------------------------------------------

/// A finding with one thing to do about it.
pub open spec fn finding(
    category: DoctorFindingCategory,
    severity: DoctorFindingSeverity,
    message: Seq<char>,
    step: Seq<char>,
) -> FindingModel {
    FindingModel { category, severity, message, remediation: seq![step] }
}

fn make_finding(
    category: DoctorFindingCategory,
    severity: DoctorFindingSeverity,
    message: &str,
    step: &str,
) -> (r: DoctorFinding)
    ensures
        r@ == finding(category, severity, message@, step@),
{
    let mut remediation: Vec<String> = Vec::new();
    remediation.push(step.to_owned());
    assert(texts(remediation@) =~= seq![step@]);
    DoctorFinding { category, severity, message: message.to_owned(), remediation }
}

/// What is found of first-party credentials that stand alone.
pub open spec fn first_party_findings(report: ReportModel, first_party_only: bool) -> Seq<
    FindingModel,
> {
    if first_party_only {
        seq![
            finding(
                DoctorFindingCategory::Auth,
                DoctorFindingSeverity::Warning,
                "First-party Spotify auth is heavily rate-limited by Spotify (chronic 429s)."@,
                if report.client_id is Some {
                    "Run `spotuify login --dev-app` to switch to dev-app auth"@
                } else {
                    "Run `spotuify onboard` to set up a dev app and switch off rate-limited first-party auth"@
                },
            ),
        ]
    } else {
        Seq::empty()
    }
}

/// What is found of settings that cannot be read.
pub open spec fn config_findings(report: ReportModel) -> Seq<FindingModel> {
    if report.config_ok {
        Seq::empty()
    } else {
        seq![
            finding(
                DoctorFindingCategory::Config,
                DoctorFindingSeverity::Error,
                match report.config_error {
                    Some(error) => error,
                    None => "config failed to load"@,
                },
                "spotuify config init"@,
            ),
        ]
    }
}

/// What is found of a daemon that cannot be reached.
pub open spec fn daemon_findings(report: ReportModel) -> Seq<FindingModel> {
    if report.daemon.socket_reachable {
        Seq::empty()
    } else {
        seq![
            finding(
                DoctorFindingCategory::Daemon,
                DoctorFindingSeverity::Warning,
                if report.daemon.stale_socket {
                    "daemon socket is stale"@
                } else {
                    "daemon is not running"@
                },
                "spotuify daemon start"@,
            ),
        ]
    }
}

/// What is found of credentials that are missing or broken.
pub open spec fn token_findings(report: ReportModel) -> Seq<FindingModel> {
    if report.keychain_token.ok {
        Seq::empty()
    } else {
        seq![
            finding(
                DoctorFindingCategory::Auth,
                DoctorFindingSeverity::Error,
                "auth token: "@ + report.keychain_token.message,
                "spotuify login"@,
            ),
        ]
    }
}

/// What is found of a redirect URI whose host is rejected; `host` is the
/// rejected host, if any.
pub open spec fn redirect_findings(host: Option<Seq<char>>) -> Seq<FindingModel> {
    match host {
        Some(host) => seq![
            finding(
                DoctorFindingCategory::Auth,
                DoctorFindingSeverity::Warning,
                "OAuth redirect host `"@ + host
                    + "` is rejected by Spotify since the Nov 2025 OAuth migration; only the literal 127.0.0.1 loopback works"@,
                "spotuify config set redirect_uri http://127.0.0.1:8888/callback"@,
            ),
        ],
        None => Seq::empty(),
    }
}

/// What is found of the preferred device.
pub open spec fn preferred_findings(devices: DevicesModel) -> Seq<FindingModel> {
    match devices.preferred_configured {
        None => seq![
            finding(
                DoctorFindingCategory::Device,
                DoctorFindingSeverity::Warning,
                "preferred Spotify device is not configured"@,
                "spotuify config set player.device_name spotuify-hume"@,
            ),
        ],
        Some(name) => if devices.preferred_visible {
            Seq::empty()
        } else {
            seq![
                finding(
                    DoctorFindingCategory::Device,
                    DoctorFindingSeverity::Error,
                    "preferred Spotify device `"@ + name + "` is not visible"@,
                    "spotuify devices"@,
                ),
            ]
        },
    }
}

/// What is found of devices that cannot be controlled.
pub open spec fn restricted_findings(devices: DevicesModel) -> Seq<FindingModel> {
    if devices.restricted_devices.len() == 0 {
        Seq::empty()
    } else {
        seq![
            finding(
                DoctorFindingCategory::Device,
                DoctorFindingSeverity::Warning,
                decimal(devices.restricted_devices.len())
                    + " restricted Spotify device(s) visible; Web API commands cannot target them"@,
                "spotuify devices"@,
            ),
        ]
    }
}

/// What is found of the devices.
pub open spec fn device_findings(report: ReportModel) -> Seq<FindingModel> {
    match report.device_diagnostics {
        Some(devices) => preferred_findings(devices) + restricted_findings(devices),
        None => Seq::empty(),
    }
}

/// How bad a failed check is: a rate limit passes, and only playback and
/// devices are what nothing works without.
pub open spec fn check_severity(check: CheckModel) -> DoctorFindingSeverity {
    if speaks_of_rate_limit(check.message) {
        DoctorFindingSeverity::Warning
    } else if check.name == "api playback"@ || check.name == "api devices"@ {
        DoctorFindingSeverity::Error
    } else {
        DoctorFindingSeverity::Warning
    }
}

/// What is found of one check.
pub open spec fn check_finding(check: CheckModel) -> FindingModel {
    finding(
        DoctorFindingCategory::Network,
        check_severity(check),
        check.name + ": "@ + check.message,
        if speaks_of_rate_limit(check.message) {
            "wait for Spotify rate limit reset"@
        } else {
            "spotuify doctor"@
        },
    )
}

/// What is found of the checks that failed.
pub open spec fn check_findings(checks: Seq<CheckModel>) -> Seq<FindingModel>
    decreases checks.len(),
{
    if checks.len() == 0 {
        Seq::empty()
    } else {
        let rest = check_findings(checks.drop_last());
        if checks.last().ok {
            rest
        } else {
            rest.push(check_finding(checks.last()))
        }
    }
}

pub open spec fn truth(b: bool) -> Seq<char> {
    if b {
        "true"@
    } else {
        "false"@
    }
}

/// How the embedded player is, in one line.
pub open spec fn audio_line(audio: AudioHealth) -> Seq<char> {
    "embedded player: connected="@ + truth(audio.connected) + ", playing="@ + truth(
        audio.is_playing,
    ) + ", samples_advancing="@ + truth(audio.samples_advancing) + ", reconnect_attempts="@
        + decimal(audio.reconnect_attempts as nat) + ", backoff="@ + decimal(
        audio.current_backoff_ms as nat,
    ) + "ms"@ + (if audio.last_stall_ms is Some {
        ", last_stall=seen"@
    } else {
        ""@
    })
}

/// What is found of the embedded player: how it is, and that no sound comes
/// out where it should.
pub open spec fn audio_findings(report: ReportModel) -> Seq<FindingModel> {
    match report.daemon.audio_health {
        Some(audio) => {
            let line = FindingModel {
                category: DoctorFindingCategory::Player,
                severity: DoctorFindingSeverity::Info,
                message: audio_line(audio),
                remediation: Seq::empty(),
            };
            if audio.connected && audio.we_are_active && audio.is_playing
                && !audio.samples_advancing {
                seq![
                    line,
                    finding(
                        DoctorFindingCategory::Player,
                        DoctorFindingSeverity::Warning,
                        "player connected but no audio is flowing (clock says playing); recovering. Likely an audio-route/keepalive failure (e.g. AirPods), not a network drop."@,
                        "spotuify reconnect"@,
                    ),
                ]
            } else {
                seq![line]
            }
        },
        None => Seq::empty(),
    }
}

/// Everything that is found of a report, in order; `host` is the rejected
/// host of its redirect URI, if any.
pub open spec fn all_findings(
    report: ReportModel,
    first_party_only: bool,
    host: Option<Seq<char>>,
) -> Seq<FindingModel> {
    first_party_findings(report, first_party_only) + config_findings(report) + daemon_findings(
        report,
    ) + token_findings(report) + redirect_findings(host) + device_findings(report)
        + check_findings(report.api_checks) + audio_findings(report)
}

/// The rejected host of a report's redirect URI, if any.
pub open spec fn rejected_host_of(report: ReportModel) -> Option<Seq<char>> {
    match report.redirect_uri {
        Some(uri) => rejected(url_host(uri)),
        None => None,
    }
}

fn api_check_failure_severity(check: &DoctorCheck) -> (r: DoctorFindingSeverity)
    ensures
        r == check_severity(check@),
{
    if is_rate_limited(check.message.as_str()) {
        return DoctorFindingSeverity::Warning;
    }
    if same_text(check.name.as_str(), "api playback") || same_text(
        check.name.as_str(),
        "api devices",
    ) {
        DoctorFindingSeverity::Error
    } else {
        DoctorFindingSeverity::Warning
    }
}

fn push_check_findings(findings: &mut Vec<DoctorFinding>, checks: &[DoctorCheck])
    ensures
        seq_view(final(findings)@) == seq_view(old(findings)@) + check_findings(
            seq_view(checks@),
        ),
{
    let ghost before = seq_view(findings@);
    let ghost all = seq_view(checks@);
    let mut i: usize = 0;
    assert(all.take(0) =~= Seq::<CheckModel>::empty());
    while i < checks.len()
        invariant
            i <= checks@.len(),
            all == seq_view(checks@),
            seq_view(findings@) =~= before + check_findings(all.take(i as int)),
        decreases checks@.len() - i,
    {
        let check = &checks[i];
        proof {
            assert(all.take(i as int + 1).drop_last() =~= all.take(i as int));
            assert(all.take(i as int + 1).last() == check@);
        }
        if !check.ok {
            let message = concat3(check.name.as_str(), ": ", check.message.as_str());
            let step = if is_rate_limited(check.message.as_str()) {
                "wait for Spotify rate limit reset"
            } else {
                "spotuify doctor"
            };
            findings.push(
                make_finding(
                    DoctorFindingCategory::Network,
                    api_check_failure_severity(check),
                    message.as_str(),
                    step,
                ),
            );
        }
        i = i + 1;
    }
    assert(all.take(all.len() as int) =~= all);
}

/// `true` or `false`.
pub fn bool_str(value: bool) -> (r: &'static str)
    ensures
        r@ == truth(value),
{
    if value {
        "true"
    } else {
        "false"
    }
}

fn audio_text(audio: &AudioHealth) -> (r: String)
    ensures
        r@ == audio_line(*audio),
{
    let mut out = "embedded player: connected=".to_owned();
    out.append(bool_str(audio.connected));
    out.append(", playing=");
    out.append(bool_str(audio.is_playing));
    out.append(", samples_advancing=");
    out.append(bool_str(audio.samples_advancing));
    out.append(", reconnect_attempts=");
    let attempts = u64_text(audio.reconnect_attempts as u64);
    out.append(attempts.as_str());
    out.append(", backoff=");
    let backoff = u64_text(audio.current_backoff_ms);
    out.append(backoff.as_str());
    out.append("ms");
    if audio.last_stall_ms.is_some() {
        out.append(", last_stall=seen");
    } else {
        out.append("");
    }
    out
}

fn push_device_findings(findings: &mut Vec<DoctorFinding>, report: &DoctorReport)
    ensures
        seq_view(final(findings)@) == seq_view(old(findings)@) + device_findings(report@),
{
    let ghost before = seq_view(findings@);
    if let Some(devices) = &report.device_diagnostics {
        match &devices.preferred_configured {
            None => {
                findings.push(
                    make_finding(
                        DoctorFindingCategory::Device,
                        DoctorFindingSeverity::Warning,
                        "preferred Spotify device is not configured",
                        "spotuify config set player.device_name spotuify-hume",
                    ),
                );
            },
            Some(name) => {
                if !devices.preferred_visible {
                    let message = concat3(
                        "preferred Spotify device `",
                        name.as_str(),
                        "` is not visible",
                    );
                    findings.push(
                        make_finding(
                            DoctorFindingCategory::Device,
                            DoctorFindingSeverity::Error,
                            message.as_str(),
                            "spotuify devices",
                        ),
                    );
                }
            },
        }
        if devices.restricted_devices.len() > 0 {
            let count = u64_text(devices.restricted_devices.len() as u64);
            let message = concat2(
                count.as_str(),
                " restricted Spotify device(s) visible; Web API commands cannot target them",
            );
            findings.push(
                make_finding(
                    DoctorFindingCategory::Device,
                    DoctorFindingSeverity::Warning,
                    message.as_str(),
                    "spotuify devices",
                ),
            );
        }
    }
    assert(seq_view(findings@) =~= before + device_findings(report@));
}

fn push_audio_findings(findings: &mut Vec<DoctorFinding>, report: &DoctorReport)
    ensures
        seq_view(final(findings)@) == seq_view(old(findings)@) + audio_findings(report@),
{
    let ghost before = seq_view(findings@);
    if let Some(audio) = &report.daemon.audio_health {
        let nothing: Vec<String> = Vec::new();
        assert(texts(nothing@) =~= Seq::<Seq<char>>::empty());
        findings.push(
            DoctorFinding {
                category: DoctorFindingCategory::Player,
                severity: DoctorFindingSeverity::Info,
                message: audio_text(audio),
                remediation: nothing,
            },
        );
        if audio.connected && audio.we_are_active && audio.is_playing && !audio.samples_advancing {
            findings.push(
                make_finding(
                    DoctorFindingCategory::Player,
                    DoctorFindingSeverity::Warning,
                    "player connected but no audio is flowing (clock says playing); recovering. Likely an audio-route/keepalive failure (e.g. AirPods), not a network drop.",
                    "spotuify reconnect",
                ),
            );
        }
    }
    assert(seq_view(findings@) =~= before + audio_findings(report@));
}

fn push_setup_findings(
    findings: &mut Vec<DoctorFinding>,
    report: &DoctorReport,
    first_party_only: bool,
)
    ensures
        seq_view(final(findings)@) == seq_view(old(findings)@) + first_party_findings(
            report@,
            first_party_only,
        ) + config_findings(report@) + daemon_findings(report@) + token_findings(report@),
{
    let ghost before = seq_view(findings@);
    if first_party_only {
        let step = if report.client_id.is_some() {
            "Run `spotuify login --dev-app` to switch to dev-app auth"
        } else {
            "Run `spotuify onboard` to set up a dev app and switch off rate-limited first-party auth"
        };
        findings.push(
            make_finding(
                DoctorFindingCategory::Auth,
                DoctorFindingSeverity::Warning,
                "First-party Spotify auth is heavily rate-limited by Spotify (chronic 429s).",
                step,
            ),
        );
    }
    if !report.config_ok {
        let message = match &report.config_error {
            Some(error) => error.as_str(),
            None => "config failed to load",
        };
        findings.push(
            make_finding(
                DoctorFindingCategory::Config,
                DoctorFindingSeverity::Error,
                message,
                "spotuify config init",
            ),
        );
    }
    if !report.daemon.socket_reachable {
        let message = if report.daemon.stale_socket {
            "daemon socket is stale"
        } else {
            "daemon is not running"
        };
        findings.push(
            make_finding(
                DoctorFindingCategory::Daemon,
                DoctorFindingSeverity::Warning,
                message,
                "spotuify daemon start",
            ),
        );
    }
    if !report.keychain_token.ok {
        let message = concat2("auth token: ", report.keychain_token.message.as_str());
        findings.push(
            make_finding(
                DoctorFindingCategory::Auth,
                DoctorFindingSeverity::Error,
                message.as_str(),
                "spotuify login",
            ),
        );
    }
    assert(seq_view(findings@) =~= before + first_party_findings(report@, first_party_only)
        + config_findings(report@) + daemon_findings(report@) + token_findings(report@));
}

/// Everything that is found of a report, where the rejected host of its
/// redirect URI, if any, is known.
pub fn findings_given_host(
    report: &DoctorReport,
    first_party_only: bool,
    rejected_host: Option<String>,
) -> (r: Vec<DoctorFinding>)
    ensures
        seq_view(r@) == all_findings(report@, first_party_only, opt_text(rejected_host)),
{
    let mut findings: Vec<DoctorFinding> = Vec::new();
    assert(seq_view(findings@) =~= Seq::<FindingModel>::empty());
    push_setup_findings(&mut findings, report, first_party_only);
    let ghost setup = seq_view(findings@);
    if let Some(host) = &rejected_host {
        let message = concat3(
            "OAuth redirect host `",
            host.as_str(),
            "` is rejected by Spotify since the Nov 2025 OAuth migration; only the literal 127.0.0.1 loopback works",
        );
        findings.push(
            make_finding(
                DoctorFindingCategory::Auth,
                DoctorFindingSeverity::Warning,
                message.as_str(),
                "spotuify config set redirect_uri http://127.0.0.1:8888/callback",
            ),
        );
    }
    assert(seq_view(findings@) =~= setup + redirect_findings(opt_text(rejected_host)));
    push_device_findings(&mut findings, report);
    push_check_findings(&mut findings, report.api_checks.as_slice());
    push_audio_findings(&mut findings, report);
    assert(seq_view(findings@) =~= all_findings(
        report@,
        first_party_only,
        opt_text(rejected_host),
    ));
    findings
}

/// Everything that is found of a report.
pub fn build_findings(report: &DoctorReport, first_party_only: bool) -> (r: Vec<DoctorFinding>)
    ensures
        seq_view(r@) == all_findings(report@, first_party_only, rejected_host_of(report@)),
{
    let host = match &report.redirect_uri {
        Some(uri) => redirect_host_rejected_by_spotify(uri.as_str()),
        None => None,
    };
    findings_given_host(report, first_party_only, host)
}

// ---------------------------------------------------------------------------
// Next steps and health
// ---------------------------------------------------------------------------

/// A list with every text kept where it stands first.
pub open spec fn distinct(v: Seq<Seq<char>>) -> Seq<Seq<char>>
    decreases v.len(),
{
    if v.len() == 0 {
        Seq::empty()
    } else {
        let rest = distinct(v.drop_last());
        if rest.contains(v.last()) {
            rest
        } else {
            rest.push(v.last())
        }
    }
}

/// What there is to do about all findings, in order.
pub open spec fn all_steps(findings: Seq<FindingModel>) -> Seq<Seq<char>>
    decreases findings.len(),
{
    if findings.len() == 0 {
        Seq::empty()
    } else {
        all_steps(findings.drop_last()) + findings.last().remediation
    }
}

/// What to do next: what the findings call for, each once, or something to
/// try where they call for nothing.
pub open spec fn next_steps(findings: Seq<FindingModel>) -> Seq<Seq<char>> {
    let steps = distinct(all_steps(findings));
    if steps.len() == 0 {
        seq!["spotuify status"@, "spotuify search \"luther vandross\" --type track"@]
    } else {
        steps
    }
}

/// What to do next.
pub fn recommended_next_steps(findings: &[DoctorFinding]) -> (r: Vec<String>)
    ensures
        texts(r@) == next_steps(seq_view(findings@)),
{
    let ghost all = seq_view(findings@);
    let mut steps: Vec<String> = Vec::new();
    let mut i: usize = 0;
    proof {
        assert(all.take(0) =~= Seq::<FindingModel>::empty());
        assert(texts(steps@) =~= Seq::<Seq<char>>::empty());
    }
    while i < findings.len()
        invariant
            i <= findings@.len(),
            all == seq_view(findings@),
            texts(steps@) == distinct(all_steps(all.take(i as int))),
        decreases findings@.len() - i,
    {
        let ghost before = all_steps(all.take(i as int));
        let ghost mine = texts(findings@[i as int].remediation@);
        let remediation = findings[i].remediation.as_slice();
        let mut j: usize = 0;
        proof {
            assert(all.take(i as int + 1).drop_last() =~= all.take(i as int));
            assert(all.take(i as int + 1).last() == findings@[i as int]@);
            assert(before + mine.take(0) =~= before);
        }
        while j < remediation.len()
            invariant
                j <= remediation@.len(),
                mine == texts(remediation@),
                texts(steps@) == distinct(before + mine.take(j as int)),
            decreases remediation@.len() - j,
        {
            proof {
                let next = before + mine.take(j as int + 1);
                assert(next.drop_last() =~= before + mine.take(j as int));
                assert(next.last() == remediation@[j as int]@);
            }
            if !list_has(steps.as_slice(), remediation[j].as_str()) {
                steps.push(remediation[j].clone());
            }
            j = j + 1;
        }
        proof {
            assert(mine.take(mine.len() as int) =~= mine);
            assert(all_steps(all.take(i as int + 1)) == before + mine);
        }
        i = i + 1;
    }
    assert(all.take(all.len() as int) =~= all);
    if steps.len() == 0 {
        steps.push("spotuify status".to_owned());
        steps.push("spotuify search \"luther vandross\" --type track".to_owned());
        assert(texts(steps@) =~= seq![
            "spotuify status"@,
            "spotuify search \"luther vandross\" --type track"@,
        ]);
    }
    steps
}

/// Whether some finding is that bad.
pub open spec fn has_severity(
    findings: Seq<FindingModel>,
    severity: DoctorFindingSeverity,
) -> bool {
    exists|i: int| 0 <= i < findings.len() && (#[trigger] findings[i]).severity == severity
}

/// How healthy findings leave everything: an error is unhealthy, a warning
/// without errors degraded.
pub open spec fn elected_health(findings: Seq<FindingModel>) -> HealthClass {
    if has_severity(findings, DoctorFindingSeverity::Error) {
        HealthClass::Unhealthy
    } else if has_severity(findings, DoctorFindingSeverity::Warning) {
        HealthClass::Degraded
    } else {
        HealthClass::Healthy
    }
}

fn any_of_severity(findings: &[DoctorFinding], severity: DoctorFindingSeverity) -> (r: bool)
    ensures
        r == has_severity(seq_view(findings@), severity),
{
    let mut i: usize = 0;
    while i < findings.len()
        invariant
            i <= findings@.len(),
            forall|k: int| 0 <= k < i ==> (#[trigger] seq_view(findings@)[k]).severity != severity,
        decreases findings@.len() - i,
    {
        if findings[i].severity == severity {
            assert(seq_view(findings@)[i as int].severity == severity);
            return true;
        }
        i = i + 1;
    }
    false
}

/// A report with its findings, what to do next and how healthy that is.
pub open spec fn finalized(report: ReportModel, findings: Seq<FindingModel>) -> ReportModel {
    ReportModel {
        findings,
        recommended_next_steps: next_steps(findings),
        health_class: elected_health(findings),
        healthy: elected_health(findings) == HealthClass::Healthy,
        ..report
    }
}

/// Fills in the findings of a report, what to do next and how healthy that
/// is.
pub fn finalize_report(report: &mut DoctorReport, first_party_only: bool)
    ensures
        final(report)@ == finalized(
            old(report)@,
            all_findings(old(report)@, first_party_only, rejected_host_of(old(report)@)),
        ),
{
    let findings = build_findings(report, first_party_only);
    install_findings(report, findings);
}

/// Puts findings into a report, with what to do next and how healthy that is.
pub fn install_findings(report: &mut DoctorReport, findings: Vec<DoctorFinding>)
    ensures
        final(report)@ == finalized(old(report)@, seq_view(findings@)),
{
    report.recommended_next_steps = recommended_next_steps(findings.as_slice());
    let has_error = any_of_severity(findings.as_slice(), DoctorFindingSeverity::Error);
    let has_warning = any_of_severity(findings.as_slice(), DoctorFindingSeverity::Warning);
    report.health_class = if has_error {
        HealthClass::Unhealthy
    } else if has_warning {
        HealthClass::Degraded
    } else {
        HealthClass::Healthy
    };
    report.healthy = report.health_class == HealthClass::Healthy;
    report.findings = findings;
}

/// What is found of a player session that is down although this device is the
/// one meant to play.
pub fn player_session_finding(
    connected: bool,
    we_are_active: bool,
    gave_up: bool,
    consecutive_failures: u32,
) -> (r: Option<DoctorFinding>)
    ensures
        opt_view(r) == if connected || !we_are_active {
            None
        } else if gave_up {
            Some(
                finding(
                    DoctorFindingCategory::Device,
                    DoctorFindingSeverity::Warning,
                    "player session is down after "@ + decimal(consecutive_failures as nat)
                        + " reconnect attempts; run `spotuify reconnect` or play something to re-register"@,
                    "spotuify reconnect"@,
                ),
            )
        } else {
            Some(
                FindingModel {
                    category: DoctorFindingCategory::Device,
                    severity: DoctorFindingSeverity::Warning,
                    message: "player session is down; the daemon is auto-reconnecting"@,
                    remediation: Seq::empty(),
                },
            )
        },
{
    if connected || !we_are_active {
        return None;
    }
    if gave_up {
        let count = u64_text(consecutive_failures as u64);
        let message = concat3(
            "player session is down after ",
            count.as_str(),
            " reconnect attempts; run `spotuify reconnect` or play something to re-register",
        );
        Some(
            make_finding(
                DoctorFindingCategory::Device,
                DoctorFindingSeverity::Warning,
                message.as_str(),
                "spotuify reconnect",
            ),
        )
    } else {
        let nothing: Vec<String> = Vec::new();
        assert(texts(nothing@) =~= Seq::<Seq<char>>::empty());
        Some(
            DoctorFinding {
                category: DoctorFindingCategory::Device,
                severity: DoctorFindingSeverity::Warning,
                message: "player session is down; the daemon is auto-reconnecting".to_owned(),
                remediation: nothing,
            },
        )
    }
}

// ---------------------------------------------------------------------------
// Laws
// ---------------------------------------------------------------------------

/// A report is healthy exactly when nothing worse than information was found,
/// and unhealthy exactly when an error was.
pub proof fn health_follows_the_worst_finding(report: ReportModel, findings: Seq<FindingModel>)
    ensures
        ({
            let done = finalized(report, findings);
            &&& done.healthy <==> forall|i: int|
                0 <= i < findings.len() ==> (#[trigger] findings[i]).severity
                    == DoctorFindingSeverity::Info
            &&& done.health_class == HealthClass::Unhealthy <==> has_severity(
                findings,
                DoctorFindingSeverity::Error,
            )
            &&& done.healthy <==> done.health_class == HealthClass::Healthy
        }),
{
    if elected_health(findings) == HealthClass::Healthy {
        assert forall|i: int| 0 <= i < findings.len() implies (#[trigger] findings[i]).severity
            == DoctorFindingSeverity::Info by {
            assert(findings[i].severity != DoctorFindingSeverity::Error);
            assert(findings[i].severity != DoctorFindingSeverity::Warning);
        }
    }
}

proof fn lemma_distinct(v: Seq<Seq<char>>)
    ensures
        forall|i: int, j: int|
            0 <= i < j < distinct(v).len() ==> distinct(v)[i] != distinct(v)[j],
        forall|s: Seq<char>|
            #![trigger distinct(v).contains(s)]
            #![trigger v.contains(s)]
            distinct(v).contains(s) <==> v.contains(s),
    decreases v.len(),
{
    if v.len() > 0 {
        let init = v.drop_last();
        let rest = distinct(init);
        lemma_distinct(init);
        let all = distinct(v);
        assert forall|i: int, j: int| 0 <= i < j < all.len() implies all[i] != all[j] by {
            if j == rest.len() {
                assert(rest[i] == all[i]);
                assert(rest.contains(all[i]));
            }
        }
        assert forall|s: Seq<char>|
            #![trigger all.contains(s)]
            #![trigger v.contains(s)]
            all.contains(s) <==> v.contains(s) by {
            if all.contains(s) {
                let k = choose|k: int| 0 <= k < all.len() && all[k] == s;
                if k < rest.len() {
                    assert(rest[k] == s);
                    assert(rest.contains(s));
                    let m = choose|m: int| 0 <= m < init.len() && init[m] == s;
                    assert(v[m] == s);
                } else {
                    assert(v[v.len() - 1] == s);
                }
            }
            if v.contains(s) {
                let m = choose|m: int| 0 <= m < v.len() && v[m] == s;
                if m < init.len() {
                    assert(init[m] == s);
                    assert(init.contains(s));
                    assert(rest.contains(s));
                    let k = choose|k: int| 0 <= k < rest.len() && rest[k] == s;
                    assert(all[k] == s);
                } else {
                    assert(s == v.last());
                    if rest.contains(s) {
                        let k = choose|k: int| 0 <= k < rest.len() && rest[k] == s;
                        assert(all[k] == s);
                    } else {
                        assert(all[rest.len() as int] == s);
                    }
                }
            }
        }
    } else {
        assert(distinct(v) =~= v);
    }
}

proof fn lemma_all_steps(findings: Seq<FindingModel>, i: int)
    requires
        0 <= i < findings.len(),
    ensures
        forall|k: int|
            0 <= k < findings[i].remediation.len() ==> all_steps(findings).contains(
                #[trigger] findings[i].remediation[k],
            ),
    decreases findings.len(),
{
    let init = findings.drop_last();
    let all = all_steps(findings);
    let rest = all_steps(init);
    if i < init.len() {
        lemma_all_steps(init, i);
        assert forall|k: int| 0 <= k < findings[i].remediation.len() implies all.contains(
            #[trigger] findings[i].remediation[k],
        ) by {
            assert(init[i] == findings[i]);
            let s = init[i].remediation[k];
            assert(rest.contains(s));
            let m = choose|m: int| 0 <= m < rest.len() && rest[m] == s;
            assert(all[m] == s);
        }
    } else {
        assert forall|k: int| 0 <= k < findings[i].remediation.len() implies all.contains(
            #[trigger] findings[i].remediation[k],
        ) by {
            assert(all[rest.len() + k] == findings[i].remediation[k]);
        }
    }
}

/// There is always something to do next, nothing is said twice, and what any
/// finding calls for is among it.
pub proof fn next_steps_cover_the_findings(findings: Seq<FindingModel>)
    ensures
        next_steps(findings).len() > 0,
        forall|i: int, j: int|
            0 <= i < j < next_steps(findings).len() ==> next_steps(findings)[i] != next_steps(
                findings,
            )[j],
        forall|i: int, k: int|
            0 <= i < findings.len() && 0 <= k < findings[i].remediation.len() ==> next_steps(
                findings,
            ).contains(#[trigger] findings[i].remediation[k]),
{
    let all = all_steps(findings);
    lemma_distinct(all);
    reveal_strlit("spotuify status");
    reveal_strlit("spotuify search \"luther vandross\" --type track");
    assert("spotuify status"@.len() != "spotuify search \"luther vandross\" --type track"@.len());
    assert forall|i: int, k: int|
        0 <= i < findings.len() && 0 <= k < findings[i].remediation.len() implies next_steps(
        findings,
    ).contains(#[trigger] findings[i].remediation[k]) by {
        lemma_all_steps(findings, i);
        let s = findings[i].remediation[k];
        assert(all.contains(s));
        assert(distinct(all).contains(s));
    }
}

/// A masked client id shows at most the four characters at each end: two ids
/// that agree there, or two short ones, cannot be told apart.
pub proof fn masked_client_ids_hide_the_middle(a: Seq<char>, b: Seq<char>)
    ensures
        a.len() <= 8 && b.len() <= 8 ==> masked_client_id(a) == masked_client_id(b),
        a.len() > 8 && b.len() > 8 && a.take(4) == b.take(4) && a.skip(a.len() - 4) == b.skip(
            b.len() - 4,
        ) ==> masked_client_id(a) == masked_client_id(b),
        masked_client_id(a).len() <= 11,
{
    reveal_strlit("present");
    reveal_strlit("...");
}

// ---------------------------------------------------------------------------
// Laws of findings
// ---------------------------------------------------------------------------

/// Where each part of the findings begins.
proof fn lemma_parts(report: ReportModel, first_party_only: bool, host: Option<Seq<char>>)
    ensures
        ({
            let all = all_findings(report, first_party_only, host);
            let a = first_party_findings(report, first_party_only);
            let b = config_findings(report);
            let c = daemon_findings(report);
            let d = token_findings(report);
            let e = redirect_findings(host);
            let f = device_findings(report);
            let g = check_findings(report.api_checks);
            let h = audio_findings(report);
            let n1 = a.len();
            let n2 = n1 + b.len();
            let n3 = n2 + c.len();
            let n4 = n3 + d.len();
            let n5 = n4 + e.len();
            let n6 = n5 + f.len();
            let n7 = n6 + g.len();
            &&& all.len() == n7 + h.len()
            &&& forall|i: int| 0 <= i < a.len() ==> #[trigger] all[i] == a[i]
            &&& forall|i: int| 0 <= i < b.len() ==> #[trigger] all[n1 + i] == b[i]
            &&& forall|i: int| 0 <= i < c.len() ==> #[trigger] all[n2 + i] == c[i]
            &&& forall|i: int| 0 <= i < d.len() ==> #[trigger] all[n3 + i] == d[i]
            &&& forall|i: int| 0 <= i < e.len() ==> #[trigger] all[n4 + i] == e[i]
            &&& forall|i: int| 0 <= i < f.len() ==> #[trigger] all[n5 + i] == f[i]
            &&& forall|i: int| 0 <= i < g.len() ==> #[trigger] all[n6 + i] == g[i]
            &&& forall|i: int| 0 <= i < h.len() ==> #[trigger] all[n7 + i] == h[i]
        }),
{
}

/// A report is unhealthy exactly where some finding is an error, degraded
/// exactly where some is a warning and none an error, and healthy exactly where
/// all are information; everything else of the report stays.
pub proof fn health_is_that_of_the_worst_finding(
    report: ReportModel,
    findings: Seq<FindingModel>,
)
    ensures
        ({
            let done = finalized(report, findings);
            let error = exists|i: int|
                0 <= i < findings.len() && (#[trigger] findings[i]).severity
                    == DoctorFindingSeverity::Error;
            let warning = exists|i: int|
                0 <= i < findings.len() && (#[trigger] findings[i]).severity
                    == DoctorFindingSeverity::Warning;
            &&& error <==> done.health_class == HealthClass::Unhealthy
            &&& !error && warning <==> done.health_class == HealthClass::Degraded
            &&& !error && !warning <==> done.health_class == HealthClass::Healthy
            &&& done.healthy <==> !error && !warning
            &&& done.findings == findings
            &&& done.config_path == report.config_path && done.config_ok == report.config_ok
            &&& done.config_error == report.config_error && done.logs_path == report.logs_path
            &&& done.client_id == report.client_id && done.redirect_uri == report.redirect_uri
            &&& done.client_secret_present == report.client_secret_present
            &&& done.keychain_token == report.keychain_token && done.daemon == report.daemon
            &&& done.api_checks == report.api_checks && done.system == report.system
            &&& done.device_diagnostics == report.device_diagnostics
        }),
{
}

/// Credentials that are missing or broken are an error of the sign-in, told
/// with the words of the check, and leave the report unhealthy.
pub proof fn missing_credentials_are_an_error(
    report: ReportModel,
    first_party_only: bool,
    host: Option<Seq<char>>,
)
    requires
        !report.keychain_token.ok,
    ensures
        ({
            let findings = all_findings(report, first_party_only, host);
            let done = finalized(report, findings);
            &&& exists|i: int|
                0 <= i < findings.len() && (#[trigger] findings[i]).category
                    == DoctorFindingCategory::Auth && findings[i].severity
                    == DoctorFindingSeverity::Error && findings[i].message == "auth token: "@
                    + report.keychain_token.message && findings[i].remediation == seq![
                    "spotuify login"@,
                ]
            &&& done.health_class == HealthClass::Unhealthy
            &&& !done.healthy
        }),
{
    lemma_parts(report, first_party_only, host);
    let findings = all_findings(report, first_party_only, host);
    let n = first_party_findings(report, first_party_only).len() + config_findings(report).len()
        + daemon_findings(report).len();
    assert(findings[n + 0int] == token_findings(report)[0]);
    health_is_that_of_the_worst_finding(report, findings);
}

/// Settings that cannot be read are an error, told with its words where there
/// are some, and leave the report unhealthy.
pub proof fn unreadable_settings_are_an_error(
    report: ReportModel,
    first_party_only: bool,
    host: Option<Seq<char>>,
)
    requires
        !report.config_ok,
    ensures
        ({
            let findings = all_findings(report, first_party_only, host);
            let done = finalized(report, findings);
            &&& exists|i: int|
                0 <= i < findings.len() && (#[trigger] findings[i]).category
                    == DoctorFindingCategory::Config && findings[i].severity
                    == DoctorFindingSeverity::Error && findings[i].remediation == seq![
                    "spotuify config init"@,
                ] && (report.config_error is Some ==> findings[i].message
                    == report.config_error->0)
            &&& done.health_class == HealthClass::Unhealthy
            &&& !done.healthy
        }),
{
    lemma_parts(report, first_party_only, host);
    let findings = all_findings(report, first_party_only, host);
    let n = first_party_findings(report, first_party_only).len() as int;
    assert(findings[n + 0int] == config_findings(report)[0]);
    health_is_that_of_the_worst_finding(report, findings);
}

/// A daemon that cannot be reached is a warning, so that no report on it is
/// healthy.
pub proof fn an_unreachable_daemon_is_a_warning(
    report: ReportModel,
    first_party_only: bool,
    host: Option<Seq<char>>,
)
    requires
        !report.daemon.socket_reachable,
    ensures
        ({
            let findings = all_findings(report, first_party_only, host);
            &&& exists|i: int|
                0 <= i < findings.len() && (#[trigger] findings[i]).category
                    == DoctorFindingCategory::Daemon && findings[i].severity
                    == DoctorFindingSeverity::Warning && findings[i].remediation == seq![
                    "spotuify daemon start"@,
                ] && findings[i].message == if report.daemon.stale_socket {
                    "daemon socket is stale"@
                } else {
                    "daemon is not running"@
                }
            &&& !finalized(report, findings).healthy
        }),
{
    lemma_parts(report, first_party_only, host);
    let findings = all_findings(report, first_party_only, host);
    let n = first_party_findings(report, first_party_only).len() + config_findings(report).len();
    assert(findings[n + 0int] == daemon_findings(report)[0]);
    health_is_that_of_the_worst_finding(report, findings);
}

/// First-party credentials that stand alone, and a redirect host that is
/// rejected, are warnings of the sign-in.
pub proof fn weak_sign_ins_are_warnings(
    report: ReportModel,
    first_party_only: bool,
    host: Option<Seq<char>>,
)
    ensures
        ({
            let findings = all_findings(report, first_party_only, host);
            &&& first_party_only ==> (exists|i: int|
                0 <= i < findings.len() && (#[trigger] findings[i]).category
                    == DoctorFindingCategory::Auth && findings[i].severity
                    == DoctorFindingSeverity::Warning && findings[i].remediation
                    == if report.client_id is Some {
                    seq!["Run `spotuify login --dev-app` to switch to dev-app auth"@]
                } else {
                    seq![
                        "Run `spotuify onboard` to set up a dev app and switch off rate-limited first-party auth"@,
                    ]
                }) && !finalized(report, findings).healthy
            &&& host is Some ==> (exists|i: int|
                0 <= i < findings.len() && (#[trigger] findings[i]).category
                    == DoctorFindingCategory::Auth && findings[i].severity
                    == DoctorFindingSeverity::Warning && findings[i].remediation == seq![
                    "spotuify config set redirect_uri http://127.0.0.1:8888/callback"@,
                ]) && !finalized(report, findings).healthy
        }),
{
    lemma_parts(report, first_party_only, host);
    let findings = all_findings(report, first_party_only, host);
    if first_party_only {
        assert(findings[0] == first_party_findings(report, first_party_only)[0]);
    }
    if host is Some {
        let n = first_party_findings(report, first_party_only).len() + config_findings(
            report,
        ).len() + daemon_findings(report).len() + token_findings(report).len();
        assert(findings[n + 0int] == redirect_findings(host)[0]);
    }
    health_is_that_of_the_worst_finding(report, findings);
}

/// A preferred device that is not visible is an error; that none is configured,
/// or that some devices cannot be controlled, is a warning.
pub proof fn device_troubles_are_found(
    report: ReportModel,
    first_party_only: bool,
    host: Option<Seq<char>>,
)
    requires
        report.device_diagnostics is Some,
    ensures
        ({
            let findings = all_findings(report, first_party_only, host);
            let devices = report.device_diagnostics->0;
            let done = finalized(report, findings);
            &&& devices.preferred_configured is Some && !devices.preferred_visible ==> (exists|
                i: int,
            |
                0 <= i < findings.len() && (#[trigger] findings[i]).category
                    == DoctorFindingCategory::Device && findings[i].severity
                    == DoctorFindingSeverity::Error && findings[i].message
                    == "preferred Spotify device `"@ + devices.preferred_configured->0
                    + "` is not visible"@) && done.health_class == HealthClass::Unhealthy
            &&& devices.preferred_configured is None ==> (exists|i: int|
                0 <= i < findings.len() && (#[trigger] findings[i]).category
                    == DoctorFindingCategory::Device && findings[i].severity
                    == DoctorFindingSeverity::Warning && findings[i].message
                    == "preferred Spotify device is not configured"@) && !done.healthy
            &&& devices.restricted_devices.len() > 0 ==> (exists|i: int|
                0 <= i < findings.len() && (#[trigger] findings[i]).category
                    == DoctorFindingCategory::Device && findings[i].severity
                    == DoctorFindingSeverity::Warning && findings[i].message == decimal(
                    devices.restricted_devices.len(),
                )
                    + " restricted Spotify device(s) visible; Web API commands cannot target them"@)
                && !done.healthy
        }),
{
    lemma_parts(report, first_party_only, host);
    let findings = all_findings(report, first_party_only, host);
    let devices = report.device_diagnostics->0;
    let n = first_party_findings(report, first_party_only).len() + config_findings(report).len()
        + daemon_findings(report).len() + token_findings(report).len() + redirect_findings(
        host,
    ).len();
    let part = device_findings(report);
    let first = preferred_findings(devices);
    if first.len() > 0 {
        assert(part[0] == first[0]);
        assert(findings[n + 0int] == part[0]);
    }
    if devices.restricted_devices.len() > 0 {
        let m = first.len() as int;
        assert(part[m] == restricted_findings(devices)[0]);
        assert(findings[n + m] == part[m]);
    }
    health_is_that_of_the_worst_finding(report, findings);
}

proof fn lemma_check_is_found(checks: Seq<CheckModel>, k: int)
    requires
        0 <= k < checks.len(),
        !checks[k].ok,
    ensures
        exists|i: int|
            0 <= i < check_findings(checks).len() && #[trigger] check_findings(checks)[i]
                == check_finding(checks[k]),
    decreases checks.len(),
{
    let init = checks.drop_last();
    let before = check_findings(init);
    let all = check_findings(checks);
    if k < init.len() {
        lemma_check_is_found(init, k);
        assert(init[k] == checks[k]);
        let i = choose|i: int|
            0 <= i < before.len() && #[trigger] before[i] == check_finding(checks[k]);
        assert(all[i] == before[i]);
    } else {
        assert(all[before.len() as int] == check_finding(checks[k]));
    }
}

proof fn lemma_sound_checks(checks: Seq<CheckModel>)
    requires
        forall|i: int| 0 <= i < checks.len() ==> (#[trigger] checks[i]).ok,
    ensures
        check_findings(checks).len() == 0,
    decreases checks.len(),
{
    if checks.len() > 0 {
        let init = checks.drop_last();
        assert forall|i: int| 0 <= i < init.len() implies (#[trigger] init[i]).ok by {
            assert(init[i] == checks[i]);
        }
        lemma_sound_checks(init);
        assert(checks[checks.len() - 1].ok);
    }
}

/// Every check that failed is found, with its name and its words. It is an
/// error where playback or the devices failed otherwise than by a rate limit,
/// and else a warning; of a rate limit one is told to wait.
pub proof fn failed_checks_are_found(
    report: ReportModel,
    first_party_only: bool,
    host: Option<Seq<char>>,
    k: int,
)
    requires
        0 <= k < report.api_checks.len(),
        !report.api_checks[k].ok,
    ensures
        ({
            let findings = all_findings(report, first_party_only, host);
            let check = report.api_checks[k];
            let limited = has_part(lowered(check.message), "rate limit"@);
            let central = check.name == "api playback"@ || check.name == "api devices"@;
            &&& exists|i: int|
                0 <= i < findings.len() && (#[trigger] findings[i]).category
                    == DoctorFindingCategory::Network && findings[i].message == check.name + ": "@
                    + check.message && findings[i].severity == if central && !limited {
                    DoctorFindingSeverity::Error
                } else {
                    DoctorFindingSeverity::Warning
                } && findings[i].remediation == if limited {
                    seq!["wait for Spotify rate limit reset"@]
                } else {
                    seq!["spotuify doctor"@]
                }
            &&& !finalized(report, findings).healthy
            &&& central && !limited ==> finalized(report, findings).health_class
                == HealthClass::Unhealthy
        }),
{
    lemma_parts(report, first_party_only, host);
    lemma_check_is_found(report.api_checks, k);
    let findings = all_findings(report, first_party_only, host);
    let n = first_party_findings(report, first_party_only).len() + config_findings(report).len()
        + daemon_findings(report).len() + token_findings(report).len() + redirect_findings(
        host,
    ).len() + device_findings(report).len();
    let part = check_findings(report.api_checks);
    let i = choose|i: int|
        0 <= i < part.len() && #[trigger] part[i] == check_finding(report.api_checks[k]);
    assert(findings[n + i] == part[i]);
    health_is_that_of_the_worst_finding(report, findings);
}

/// A player that is meant to be heard and is not is a warning; how it is else
/// is information.
pub proof fn a_silent_player_is_a_warning(
    report: ReportModel,
    first_party_only: bool,
    host: Option<Seq<char>>,
)
    requires
        report.daemon.audio_health is Some,
    ensures
        ({
            let findings = all_findings(report, first_party_only, host);
            let audio = report.daemon.audio_health->0;
            let silent = audio.connected && audio.we_are_active && audio.is_playing
                && !audio.samples_advancing;
            &&& exists|i: int|
                0 <= i < findings.len() && (#[trigger] findings[i]).category
                    == DoctorFindingCategory::Player && findings[i].severity
                    == DoctorFindingSeverity::Info
            &&& silent <==> (exists|i: int|
                0 <= i < findings.len() && (#[trigger] findings[i]).category
                    == DoctorFindingCategory::Player && findings[i].severity
                    == DoctorFindingSeverity::Warning)
            &&& silent ==> !finalized(report, findings).healthy
        }),
{
    lemma_parts(report, first_party_only, host);
    let findings = all_findings(report, first_party_only, host);
    let a = first_party_findings(report, first_party_only);
    let n = a.len() + config_findings(report).len() + daemon_findings(report).len()
        + token_findings(report).len() + redirect_findings(host).len() + device_findings(
        report,
    ).len() + check_findings(report.api_checks).len();
    let part = audio_findings(report);
    assert(findings[n + 0int] == part[0]);
    if part.len() == 2 {
        assert(findings[n + 1int] == part[1]);
    }
    lemma_check_categories(report.api_checks);
    assert forall|i: int| 0 <= i < n implies (#[trigger] findings[i]).category
        != DoctorFindingCategory::Player by {
        lemma_early_findings(report, first_party_only, host, i);
    }
    if exists|i: int|
        0 <= i < findings.len() && (#[trigger] findings[i]).category
            == DoctorFindingCategory::Player && findings[i].severity
            == DoctorFindingSeverity::Warning {
        let i = choose|i: int|
            0 <= i < findings.len() && (#[trigger] findings[i]).category
                == DoctorFindingCategory::Player && findings[i].severity
                == DoctorFindingSeverity::Warning;
        assert(i >= n);
        assert(findings[n + (i - n)] == part[i - n]);
    }
    health_is_that_of_the_worst_finding(report, findings);
}

proof fn lemma_check_categories(checks: Seq<CheckModel>)
    ensures
        forall|i: int|
            0 <= i < check_findings(checks).len() ==> (#[trigger] check_findings(
                checks,
            )[i]).category == DoctorFindingCategory::Network,
    decreases checks.len(),
{
    if checks.len() > 0 {
        lemma_check_categories(checks.drop_last());
        let before = check_findings(checks.drop_last());
        let all = check_findings(checks);
        assert forall|i: int| 0 <= i < all.len() implies (#[trigger] all[i]).category
            == DoctorFindingCategory::Network by {
            if i < before.len() {
                assert(all[i] == before[i]);
            }
        }
    }
}

proof fn lemma_early_findings(
    report: ReportModel,
    first_party_only: bool,
    host: Option<Seq<char>>,
    i: int,
)
    requires
        0 <= i < all_findings(report, first_party_only, host).len() - audio_findings(report).len(),
    ensures
        all_findings(report, first_party_only, host)[i].category != DoctorFindingCategory::Player,
{
    lemma_parts(report, first_party_only, host);
    lemma_check_categories(report.api_checks);
    let all = all_findings(report, first_party_only, host);
    let n1 = first_party_findings(report, first_party_only).len();
    let n2 = n1 + config_findings(report).len();
    let n3 = n2 + daemon_findings(report).len();
    let n4 = n3 + token_findings(report).len();
    let n5 = n4 + redirect_findings(host).len();
    let n6 = n5 + device_findings(report).len();
    if i < n1 {
    } else if i < n2 {
        assert(all[n1 + (i - n1)] == config_findings(report)[i - n1]);
    } else if i < n3 {
        assert(all[n2 + (i - n2)] == daemon_findings(report)[i - n2]);
    } else if i < n4 {
        assert(all[n3 + (i - n3)] == token_findings(report)[i - n3]);
    } else if i < n5 {
        assert(all[n4 + (i - n4)] == redirect_findings(host)[i - n4]);
    } else if i < n6 {
        assert(all[n5 + (i - n5)] == device_findings(report)[i - n5]);
    } else {
        assert(all[n6 + (i - n6)] == check_findings(report.api_checks)[i - n6]);
    }
}

/// Of a report in which everything is sound nothing is found but how the player
/// is, and it is healthy.
pub proof fn sound_reports_are_healthy(
    report: ReportModel,
    first_party_only: bool,
    host: Option<Seq<char>>,
)
    requires
        !first_party_only,
        host is None,
        report.config_ok,
        report.daemon.socket_reachable,
        report.keychain_token.ok,
        report.device_diagnostics is Some ==> report.device_diagnostics->0.preferred_configured
            is Some && report.device_diagnostics->0.preferred_visible
            && report.device_diagnostics->0.restricted_devices.len() == 0,
        forall|i: int| 0 <= i < report.api_checks.len() ==> (#[trigger] report.api_checks[i]).ok,
        report.daemon.audio_health is Some ==> !(report.daemon.audio_health->0.connected
            && report.daemon.audio_health->0.we_are_active
            && report.daemon.audio_health->0.is_playing
            && !report.daemon.audio_health->0.samples_advancing),
    ensures
        ({
            let findings = all_findings(report, first_party_only, host);
            &&& findings.len() == if report.daemon.audio_health is Some {
                1int
            } else {
                0
            }
            &&& finalized(report, findings).healthy
            &&& finalized(report, findings).health_class == HealthClass::Healthy
        }),
{
    lemma_sound_checks(report.api_checks);
    lemma_parts(report, first_party_only, host);
    let findings = all_findings(report, first_party_only, host);
    if findings.len() == 1 {
        assert(findings[0] == audio_findings(report)[0]);
    }
    health_is_that_of_the_worst_finding(report, findings);
}

/// What to do next is what the findings call for, in the order in which it is
/// first called for, and nothing else; without anything to do two commands are
/// suggested.
pub proof fn next_steps_come_from_the_findings(findings: Seq<FindingModel>, i: int)
    requires
        0 <= i < next_steps(findings).len(),
    ensures
        (exists|k: int| 0 <= k < findings.len() && (#[trigger] findings[k]).remediation.len() > 0)
            ==> exists|k: int|
            0 <= k < findings.len() && (#[trigger] findings[k]).remediation.contains(
                next_steps(findings)[i],
            ),
        (forall|k: int| 0 <= k < findings.len() ==> (#[trigger] findings[k]).remediation.len() == 0)
            ==> next_steps(findings) == seq![
            "spotuify status"@,
            "spotuify search \"luther vandross\" --type track"@,
        ],
{
    let all = all_steps(findings);
    lemma_distinct(all);
    lemma_steps_have_findings(findings);
    let steps = distinct(all);
    if all.len() > 0 {
        assert(all.contains(all[0]));
        assert(steps.contains(all[0]));
        assert(steps.contains(next_steps(findings)[i]));
        assert(all.contains(next_steps(findings)[i]));
        let m = choose|m: int| 0 <= m < all.len() && all[m] == next_steps(findings)[i];
        assert(all[m] == next_steps(findings)[i]);
    } else {
        assert forall|k: int| 0 <= k < findings.len() implies (
        #[trigger] findings[k]).remediation.len() == 0 by {
            lemma_all_steps(findings, k);
            if findings[k].remediation.len() > 0 {
                assert(all.contains(findings[k].remediation[0]));
            }
        }
        assert(steps =~= Seq::<Seq<char>>::empty());
    }
}

proof fn lemma_steps_have_findings(findings: Seq<FindingModel>)
    ensures
        forall|m: int|
            0 <= m < all_steps(findings).len() ==> exists|k: int|
                0 <= k < findings.len() && (#[trigger] findings[k]).remediation.contains(
                    #[trigger] all_steps(findings)[m],
                ),
    decreases findings.len(),
{
    if findings.len() > 0 {
        let init = findings.drop_last();
        lemma_steps_have_findings(init);
        let before = all_steps(init);
        let all = all_steps(findings);
        assert forall|m: int| 0 <= m < all.len() implies exists|k: int|
            0 <= k < findings.len() && (#[trigger] findings[k]).remediation.contains(
                #[trigger] all[m],
            ) by {
            if m < before.len() {
                assert(all[m] == before[m]);
                let k = choose|k: int|
                    0 <= k < init.len() && (#[trigger] init[k]).remediation.contains(before[m]);
                assert(findings[k].remediation.contains(all[m]));
            } else {
                let last = findings[findings.len() - 1];
                assert(all[m] == last.remediation[m - before.len()]);
                assert(last.remediation.contains(all[m]));
            }
        }
    }
}

// ---------------------------------------------------------------------------
// Laws of devices
// ---------------------------------------------------------------------------

/// Where the devices of a report stood: those that can be controlled and those
/// that cannot each keep their order, and none is lost or made up.
pub proof fn devices_are_reported_in_order(devices: Seq<DeviceModel>, restricted: bool) -> (at: Seq<
    int,
>)
    ensures
        at.len() == summaries(devices, restricted).len(),
        forall|i: int|
            0 <= i < at.len() ==> 0 <= #[trigger] at[i] < devices.len()
                && devices[at[i]].is_restricted == restricted && summaries(
                devices,
                restricted,
            )[i].name == devices[at[i]].name && summaries(devices, restricted)[i].kind
                == devices[at[i]].kind && summaries(devices, restricted)[i].active
                == devices[at[i]].is_active && summaries(devices, restricted)[i].restricted
                == devices[at[i]].is_restricted && summaries(devices, restricted)[i].has_id == (
            devices[at[i]].id is Some),
        forall|i: int, j: int| 0 <= i < j < at.len() ==> at[i] < at[j],
        forall|k: int|
            0 <= k < devices.len() && (#[trigger] devices[k]).is_restricted == restricted
                ==> at.contains(k),
    decreases devices.len(),
{
    if devices.len() == 0 {
        Seq::empty()
    } else {
        let init = devices.drop_last();
        let before = devices_are_reported_in_order(init, restricted);
        let n = devices.len() - 1;
        let at = if devices.last().is_restricted == restricted {
            before.push(n)
        } else {
            before
        };
        let all = summaries(devices, restricted);
        let sub = summaries(init, restricted);
        assert forall|i: int| 0 <= i < at.len() implies 0 <= #[trigger] at[i] < devices.len()
            && devices[at[i]].is_restricted == restricted && all[i].name == devices[at[i]].name
            && all[i].kind == devices[at[i]].kind && all[i].active == devices[at[i]].is_active
            && all[i].restricted == devices[at[i]].is_restricted && all[i].has_id == (
        devices[at[i]].id is Some) by {
            if i < before.len() {
                assert(at[i] == before[i]);
                assert(all[i] == sub[i]);
                assert(init[before[i]] == devices[before[i]]);
            }
        }
        assert forall|k: int|
            0 <= k < devices.len() && (#[trigger] devices[k]).is_restricted
                == restricted implies at.contains(k) by {
            if k < n {
                assert(init[k] == devices[k]);
                assert(before.contains(k));
                let m = choose|m: int| 0 <= m < before.len() && before[m] == k;
                assert(at[m] == k);
            } else {
                assert(at[before.len() as int] == n);
            }
        }
        at
    }
}

/// The active device of a report is the first that is active, and the preferred
/// one is visible exactly where a device that can be controlled has its name,
/// in any case of letters.
pub proof fn active_and_preferred_devices_are_found(
    preferred: Option<Seq<char>>,
    devices: Seq<DeviceModel>,
    k: int,
)
    requires
        0 <= k < devices.len(),
    ensures
        ({
            let told = diagnosed(preferred, devices);
            &&& devices[k].is_active && (forall|j: int|
                0 <= j < k ==> !(#[trigger] devices[j]).is_active) ==> (
            told.active_device matches Some(found) && found.name == devices[k].name && found.active
                && found.restricted == devices[k].is_restricted && found.kind == devices[k].kind
                && found.has_id == (devices[k].id is Some))
            &&& (forall|j: int| 0 <= j < devices.len() ==> !(#[trigger] devices[j]).is_active)
                ==> told.active_device is None
            &&& preferred is Some && !devices[k].is_restricted && lowered(devices[k].name)
                == lowered(preferred->0) ==> told.preferred_visible
            &&& told.preferred_visible ==> preferred is Some && exists|j: int|
                0 <= j < devices.len() && !(#[trigger] devices[j]).is_restricted && lowered(
                    devices[j].name,
                ) == lowered(preferred->0)
            &&& told.preferred_configured == preferred
            &&& told.restricted_devices == summaries(devices, true)
            &&& told.visible_unrestricted_devices == summaries(devices, false)
        }),
{
    if devices[k].is_active && (forall|j: int|
        0 <= j < k ==> !(#[trigger] devices[j]).is_active) {
        lemma_first_active(devices, k);
    }
    if forall|j: int| 0 <= j < devices.len() ==> !(#[trigger] devices[j]).is_active {
        lemma_none_active(devices);
    }
}

proof fn lemma_first_active(devices: Seq<DeviceModel>, k: int)
    requires
        0 <= k < devices.len(),
        devices[k].is_active,
        forall|j: int| 0 <= j < k ==> !(#[trigger] devices[j]).is_active,
    ensures
        first_active(devices) == Some(devices[k]),
    decreases k,
{
    if k > 0 {
        let rest = devices.skip(1);
        assert forall|j: int| 0 <= j < k - 1 implies !(#[trigger] rest[j]).is_active by {
            assert(rest[j] == devices[j + 1]);
        }
        lemma_first_active(rest, k - 1);
    }
}

proof fn lemma_none_active(devices: Seq<DeviceModel>)
    requires
        forall|j: int| 0 <= j < devices.len() ==> !(#[trigger] devices[j]).is_active,
    ensures
        first_active(devices) is None,
    decreases devices.len(),
{
    if devices.len() > 0 {
        let rest = devices.skip(1);
        assert forall|j: int| 0 <= j < rest.len() implies !(#[trigger] rest[j]).is_active by {
            assert(rest[j] == devices[j + 1]);
        }
        lemma_none_active(rest);
    }
}

// ---------------------------------------------------------------------------
// Laws of checks
// ---------------------------------------------------------------------------

/// `localhost`, in any case, and the address `::1`, bare or in brackets, are
/// rejected as they are; a host without a colon that is not `localhost` passes.
pub proof fn local_names_are_rejected(host: Seq<char>)
    ensures
        lowered(host) == lowered("localhost"@) ==> rejected(Some(host)) == Some(host),
        host == "::1"@ || host == "[::1]"@ ==> rejected(Some(host)) == Some(host),
        lowered(host) != lowered("localhost"@) && (forall|i: int|
            0 <= i < host.len() ==> #[trigger] host[i] != ':') ==> rejected(Some(host)) is None,
        rejected(None) is None,
{
    reveal_strlit("::1");
    reveal_strlit("[::1]");
    if host == "::1"@ {
        assert(strip_leading(host, '[') == host);
        assert(strip_trailing(host, ']') == host);
    }
    if host == "[::1]"@ {
        assert(host.skip(1)[0] == ':');
        assert(strip_leading(host.skip(1), '[') == host.skip(1));
        assert(strip_leading(host, '[') == host.skip(1));
        let rest = host.skip(1);
        assert(rest.last() == ']');
        assert(rest.drop_last() =~= "::1"@);
        assert(strip_trailing(rest.drop_last(), ']') == rest.drop_last());
        assert(strip_trailing(rest, ']') == rest.drop_last());
    }
    if forall|i: int| 0 <= i < host.len() ==> #[trigger] host[i] != ':' {
        lemma_strip_leading_keeps(host, '[');
        let rest = strip_leading(host, '[');
        lemma_strip_trailing_keeps(rest, ']');
        let bare = strip_trailing(rest, ']');
        if bare == "::1"@ {
            assert(bare[0] == ':');
        }
    }
}

proof fn lemma_strip_leading_keeps(s: Seq<char>, c: char)
    requires
        forall|i: int| 0 <= i < s.len() ==> #[trigger] s[i] != ':',
    ensures
        forall|i: int|
            0 <= i < strip_leading(s, c).len() ==> #[trigger] strip_leading(s, c)[i] != ':',
    decreases s.len(),
{
    if s.len() > 0 && s[0] == c {
        let rest = s.skip(1);
        assert forall|i: int| 0 <= i < rest.len() implies #[trigger] rest[i] != ':' by {
            assert(rest[i] == s[i + 1]);
        }
        lemma_strip_leading_keeps(rest, c);
        assert(strip_leading(s, c) == strip_leading(rest, c));
    } else {
        assert(strip_leading(s, c) == s);
    }
}

proof fn lemma_strip_trailing_keeps(s: Seq<char>, c: char)
    requires
        forall|i: int| 0 <= i < s.len() ==> #[trigger] s[i] != ':',
    ensures
        forall|i: int|
            0 <= i < strip_trailing(s, c).len() ==> #[trigger] strip_trailing(s, c)[i] != ':',
    decreases s.len(),
{
    if s.len() > 0 && s.last() == c {
        let rest = s.drop_last();
        assert forall|i: int| 0 <= i < rest.len() implies #[trigger] rest[i] != ':' by {
            assert(rest[i] == s[i]);
        }
        lemma_strip_trailing_keeps(rest, c);
        assert(strip_trailing(s, c) == strip_trailing(rest, c));
    } else {
        assert(strip_trailing(s, c) == s);
    }
}

/// A check of the API is fine exactly where it was answered, and tells the
/// error that it met. Only a rate limit that names a wait is waited for: its
/// whole seconds, and at least one.
pub proof fn api_checks_tell_what_happened(name: Seq<char>, outcome: ApiOutcome, elapsed_ms: u64)
    ensures
        ({
            let check = api_check_of(name, outcome, elapsed_ms);
            let wait = retry_after(outcome);
            &&& check.name == name && check.elapsed_ms == elapsed_ms
            &&& check.ok <==> outcome is Answered
            &&& outcome is Answered ==> check.message == "ok"@
            &&& outcome matches ApiOutcome::Failed { error } ==> check.message
                == error@.sentence()
            &&& wait is Some <==> (outcome matches ApiOutcome::Failed { error } && (
            error matches ProviderError::RateLimited { retry_after_ms, .. } && retry_after_ms
                is Some))
            &&& outcome matches ApiOutcome::Failed { error } ==> (
            error matches ProviderError::RateLimited { retry_after_ms: Some(ms), .. } ==> wait->0
                >= 1 && wait->0 * 1000 <= if ms < 1000 {
                1000int
            } else {
                ms as int
            } && ms < (wait->0 + 1) * 1000)
        }),
{
}

/// The transport is checked for what it offers, where there is one; playlists
/// and what was recently played are always told of, checked where they are
/// offered.
#[verifier::spinoff_prover]
#[verifier::rlimit(80)]
pub proof fn planned_checks_cover_what_is_offered(transport_available: bool, caps: ProviderCaps)
    ensures
        ({
            let steps = planned_steps(transport_available, caps);
            let t = caps.transport->0;
            let has = transport_available && caps.transport is Some;
            &&& steps.contains(ApiStep::Playback) <==> has && t.playback_state
            &&& steps.contains(ApiStep::Devices) <==> has && t.devices
            &&& steps.contains(ApiStep::Queue) <==> has && t.queue_read
            &&& steps.len() >= 2
            &&& caps.playlists.list <==> steps[steps.len() - 2] is Playlists
            &&& !caps.playlists.list <==> steps[steps.len() - 2] is PlaylistsUnsupported
            &&& caps.catalog.recently_played <==> steps[steps.len() - 1] is RecentlyPlayed
            &&& !caps.catalog.recently_played <==> steps[steps.len() - 1]
                is RecentlyPlayedUnsupported
            &&& forall|i: int|
                0 <= i < steps.len() - 2 ==> #[trigger] steps[i] is Playback || steps[i] is Devices
                    || steps[i] is Queue
        }),
{
    let steps = planned_steps(transport_available, caps);
    let has = transport_available && caps.transport is Some;
    if has {
        let t = caps.transport->0;
        let a = if t.playback_state {
            1int
        } else {
            0
        };
        let b = if t.devices {
            1int
        } else {
            0
        };
        if t.playback_state {
            assert(steps[0] == ApiStep::Playback);
        }
        if t.devices {
            assert(steps[a] == ApiStep::Devices);
        }
        if t.queue_read {
            assert(steps[a + b] == ApiStep::Queue);
        }
    }
}

/// A long client id is masked to its four characters at each end.
pub proof fn masked_client_ids_show_their_ends(id: Seq<char>)
    ensures
        id.len() > 8 ==> masked_client_id(id).len() == 11 && masked_client_id(id).take(4)
            == id.take(4) && masked_client_id(id).skip(7) == id.skip(id.len() - 4),
        id.len() <= 8 ==> masked_client_id(id) == "present"@,
{
    reveal_strlit("...");
    if id.len() > 8 {
        assert(masked_client_id(id).take(4) =~= id.take(4));
        assert(masked_client_id(id).skip(7) =~= id.skip(id.len() - 4));
    }
}

proof fn lemma_failed_checks(checks: Seq<CheckModel>) -> (at: Seq<int>)
    ensures
        at.len() == check_findings(checks).len(),
        forall|i: int|
            0 <= i < at.len() ==> 0 <= #[trigger] at[i] < checks.len() && !checks[at[i]].ok
                && check_findings(checks)[i] == check_finding(checks[at[i]]),
        forall|i: int, j: int| 0 <= i < j < at.len() ==> at[i] < at[j],
        forall|k: int| 0 <= k < checks.len() && !(#[trigger] checks[k]).ok ==> at.contains(k),
    decreases checks.len(),
{
    if checks.len() == 0 {
        Seq::empty()
    } else {
        let init = checks.drop_last();
        let n = checks.len() - 1;
        let before = lemma_failed_checks(init);
        let at = if checks.last().ok {
            before
        } else {
            before.push(n)
        };
        assert forall|i: int| 0 <= i < at.len() implies 0 <= #[trigger] at[i] < checks.len()
            && !checks[at[i]].ok && check_findings(checks)[i] == check_finding(checks[at[i]]) by {
            if i < before.len() {
                assert(at[i] == before[i]);
                assert(init[before[i]] == checks[at[i]]);
                assert(check_findings(checks)[i] == check_findings(init)[i]);
            }
        }
        assert forall|k: int| 0 <= k < checks.len() && !(#[trigger] checks[k]).ok implies at.contains(
            k,
        ) by {
            if k < n {
                assert(init[k] == checks[k]);
                assert(at[before.index_of(k)] == k);
            } else {
                assert(at[before.len() as int] == n);
            }
        }
        at
    }
}

proof fn lemma_parts_of_a_list(
    a: Seq<FindingModel>,
    b: Seq<FindingModel>,
    c: Seq<FindingModel>,
    d: Seq<FindingModel>,
    e: Seq<FindingModel>,
    f: Seq<FindingModel>,
    g: Seq<FindingModel>,
    h: Seq<FindingModel>,
)
    ensures
        ({
            let all = a + b + c + d + e + f + g + h;
            let nc = a.len() + b.len() + 0int;
            let nd = nc + c.len();
            let ne = nd + d.len();
            let nf = ne + e.len();
            let ng = nf + f.len();
            let nh = ng + g.len();
            &&& all.len() == nh + h.len()
            &&& a.len() > 0 ==> all[0] == a[0]
            &&& b.len() > 0 ==> all[a.len() as int] == b[0]
            &&& c.len() > 0 ==> all[nc] == c[0]
            &&& d.len() > 0 ==> all[nd] == d[0]
            &&& e.len() > 0 ==> all[ne] == e[0]
            &&& f.len() > 0 ==> all[nf] == f[0]
            &&& f.len() > 1 ==> all[nf + 1] == f[1]
            &&& h.len() > 0 ==> all[nh] == h[0]
            &&& h.len() > 1 ==> all[nh + 1] == h[1]
        }),
{
}

/// What is found, and in which order: first-party credentials that stand
/// alone, the settings, the daemon, the credentials, the redirect host, the
/// devices, each check that failed, the player. Nothing else is found. `at`
/// gives the places of the checks that failed.
#[verifier::spinoff_prover]
#[verifier::rlimit(80)]
pub proof fn findings_stand_in_their_order(
    report: ReportModel,
    first_party_only: bool,
    host: Option<Seq<char>>,
) -> (at: Seq<int>)
    ensures
        forall|i: int, j: int| 0 <= i < j < at.len() ==> at[i] < at[j],
        forall|i: int| 0 <= i < at.len() ==> 0 <= #[trigger] at[i] < report.api_checks.len(),
        forall|k: int|
            0 <= k < report.api_checks.len() ==> (at.contains(k) <==> !(
            #[trigger] report.api_checks[k]).ok),
        ({
            let findings = all_findings(report, first_party_only, host);
            let settings = if first_party_only {
                1int
            } else {
                0
            };
            let daemon = settings + if report.config_ok {
                0int
            } else {
                1
            };
            let token = daemon + if report.daemon.socket_reachable {
                0int
            } else {
                1
            };
            let redirect = token + if report.keychain_token.ok {
                0int
            } else {
                1
            };
            let preferred = redirect + if host is Some {
                1int
            } else {
                0
            };
            let devices = report.device_diagnostics->0;
            let has_devices = report.device_diagnostics is Some;
            let wanted = has_devices && !(devices.preferred_configured is Some
                && devices.preferred_visible);
            let restricted = preferred + if wanted {
                1int
            } else {
                0
            };
            let held = has_devices && devices.restricted_devices.len() > 0;
            let checks = restricted + if held {
                1int
            } else {
                0
            };
            let player = checks + at.len();
            let audio = report.daemon.audio_health->0;
            let silent = audio.connected && audio.we_are_active && audio.is_playing
                && !audio.samples_advancing;
            &&& findings.len() == player + if report.daemon.audio_health is None {
                0int
            } else if silent {
                2
            } else {
                1
            }
            &&& first_party_only ==> findings[0].category is Auth && findings[0].message
                == "First-party Spotify auth is heavily rate-limited by Spotify (chronic 429s)."@
            &&& !report.config_ok ==> findings[settings].category is Config && (
            report.config_error is None ==> findings[settings].message == "config failed to load"@)
            &&& !report.daemon.socket_reachable ==> findings[daemon].category is Daemon
            &&& !report.keychain_token.ok ==> findings[token].category is Auth
                && findings[token].severity is Error
            &&& host is Some ==> findings[redirect].category is Auth && findings[redirect].message
                == "OAuth redirect host `"@ + host->0
                + "` is rejected by Spotify since the Nov 2025 OAuth migration; only the literal 127.0.0.1 loopback works"@
            &&& wanted ==> findings[preferred].category is Device
                && findings[preferred].remediation == if devices.preferred_configured is Some {
                seq!["spotuify devices"@]
            } else {
                seq!["spotuify config set player.device_name spotuify-hume"@]
            }
            &&& held ==> findings[restricted].category is Device
                && findings[restricted].remediation == seq!["spotuify devices"@]
            &&& report.daemon.audio_health is Some ==> {
                &&& findings[player].category is Player && findings[player].severity is Info
                &&& findings[player].remediation.len() == 0
                &&& findings[player].message == "embedded player: connected="@ + truth(
                    audio.connected,
                ) + ", playing="@ + truth(audio.is_playing) + ", samples_advancing="@ + truth(
                    audio.samples_advancing,
                ) + ", reconnect_attempts="@ + decimal(audio.reconnect_attempts as nat)
                    + ", backoff="@ + decimal(audio.current_backoff_ms as nat) + "ms"@ + (
                if audio.last_stall_ms is None {
                    ""@
                } else {
                    ", last_stall=seen"@
                })
                &&& silent ==> findings[player + 1].category is Player && findings[player
                    + 1].remediation == seq!["spotuify reconnect"@]
            }
        }),
{
    let at = lemma_failed_checks(report.api_checks);
    let findings = all_findings(report, first_party_only, host);
    let a = first_party_findings(report, first_party_only);
    let b = config_findings(report);
    let c = daemon_findings(report);
    let d = token_findings(report);
    let e = redirect_findings(host);
    let f = device_findings(report);
    let g = check_findings(report.api_checks);
    let h = audio_findings(report);
    assert(findings == a + b + c + d + e + f + g + h);
    lemma_parts_of_a_list(a, b, c, d, e, f, g, h);
    assert forall|k: int| 0 <= k < report.api_checks.len() implies (at.contains(k) <==> !(
    #[trigger] report.api_checks[k]).ok) by {
        if at.contains(k) {
            let i = at.index_of(k);
            assert(!report.api_checks[at[i]].ok);
        }
    }
    at
}

/// One more step for the last finding comes behind the steps that there were,
/// unless it is among them.
pub proof fn steps_are_added_in_their_order(
    findings: Seq<FindingModel>,
    last: FindingModel,
    step: Seq<char>,
)
    requires
        last.remediation.len() > 0,
    ensures
        ({
            let before = next_steps(findings.push(last));
            let more = FindingModel { remediation: last.remediation.push(step), ..last };
            let after = next_steps(findings.push(more));
            &&& before.contains(step) ==> after == before
            &&& !before.contains(step) ==> after == before.push(step)
        }),
{
    let more = FindingModel { remediation: last.remediation.push(step), ..last };
    let held = all_steps(findings) + last.remediation;
    assert(findings.push(last).drop_last() =~= findings);
    assert(findings.push(more).drop_last() =~= findings);
    assert(all_steps(findings.push(last)) == held);
    assert(all_steps(findings.push(more)) =~= held.push(step));
    assert(held.push(step).drop_last() =~= held);
    assert(held.len() > 0);
    assert(distinct(held).len() > 0);
}

/// A finding with one step calls for that step, behind those of the findings
/// before it.
pub proof fn a_first_step_comes_behind_the_others(
    findings: Seq<FindingModel>,
    last: FindingModel,
    step: Seq<char>,
    k: int,
)
    requires
        last.remediation == seq![step],
        0 <= k < findings.len(),
        findings[k].remediation.len() > 0,
    ensures
        next_steps(findings).contains(step) ==> next_steps(findings.push(last)) == next_steps(
            findings,
        ),
        !next_steps(findings).contains(step) ==> next_steps(findings.push(last)) == next_steps(
            findings,
        ).push(step),
{
    lemma_some_steps(findings, k);
    let held = all_steps(findings);
    assert(findings.push(last).drop_last() =~= findings);
    assert(all_steps(findings.push(last)) =~= held.push(step));
    assert(held.push(step).drop_last() =~= held);
    assert(distinct(held).len() > 0);
}

proof fn lemma_some_steps(findings: Seq<FindingModel>, k: int)
    requires
        0 <= k < findings.len(),
        findings[k].remediation.len() > 0,
    ensures
        all_steps(findings).len() > 0,
    decreases findings.len(),
{
    if k < findings.len() - 1 {
        assert(findings.drop_last()[k] == findings[k]);
        lemma_some_steps(findings.drop_last(), k);
    }
}

/// The transport is checked in the order playback, devices, queue. Lists are
/// checked by a page of the provider's size, of fifty playlists or of twenty
/// items that were played where it names none.
#[verifier::spinoff_prover]
#[verifier::rlimit(80)]
pub proof fn checks_are_planned_in_order(transport_available: bool, caps: ProviderCaps, i: int, j: int)
    ensures
        ({
            let steps = planned_steps(transport_available, caps);
            &&& 0 <= i < j < steps.len() ==> !(steps[j] is Playback) && (steps[j] is Devices
                ==> steps[i] is Playback) && (steps[j] is Queue ==> steps[i] is Playback
                || steps[i] is Devices)
            &&& caps.playlists.list && caps.playlists.list_max_page_size is None
                ==> steps[steps.len() - 2] == (ApiStep::Playlists { limit: 50 })
            &&& caps.playlists.list ==> (caps.playlists.list_max_page_size matches Some(n) ==> (1
                <= n <= u32::MAX ==> steps[steps.len() - 2] == (ApiStep::Playlists {
                limit: n as u32,
            })))
            &&& caps.catalog.recently_played && caps.catalog.recently_played_max_page_size is None
                ==> steps[steps.len() - 1] == (ApiStep::RecentlyPlayed { limit: 20 })
            &&& caps.catalog.recently_played ==> (
            caps.catalog.recently_played_max_page_size matches Some(n) ==> (1 <= n <= u32::MAX
                ==> steps[steps.len() - 1] == (ApiStep::RecentlyPlayed { limit: n as u32 })))
        }),
{
}

/// A call that was given up is told with how long it was waited for.
pub proof fn unanswered_checks_tell_the_wait(name: Seq<char>, elapsed_ms: u64)
    ensures
        api_check_of(name, ApiOutcome::TimedOut, elapsed_ms).message == "timed out after 10s"@,
        !api_check_of(name, ApiOutcome::TimedOut, elapsed_ms).ok,
{
    reveal_strlit("timed out after ");
    reveal_strlit("s");
    reveal_strlit("timed out after 10s");
    reveal_with_fuel(decimal, 3);
    assert(decimal(10) =~= seq!['1', '0']);
    assert(api_check_of(name, ApiOutcome::TimedOut, elapsed_ms).message
        =~= "timed out after 10s"@);
}

/// A host that is rejected and is not `localhost` is the address `::1`, with
/// nothing but brackets around it: `ends` bounds it.
pub proof fn only_local_names_are_rejected(host: Seq<char>) -> (ends: (int, int))
    ensures
        rejected(Some(host)) is Some ==> rejected(Some(host)) == Some(host),
        rejected(Some(host)) is Some && lowered(host) != lowered("localhost"@) ==> {
            &&& 0 <= ends.0 <= ends.1 <= host.len()
            &&& host.subrange(ends.0, ends.1) == "::1"@
            &&& forall|k: int| 0 <= k < ends.0 ==> #[trigger] host[k] == '['
            &&& forall|k: int| ends.1 <= k < host.len() ==> #[trigger] host[k] == ']'
        },
{
    let from = lemma_strip_leading_from(host, '[');
    let rest = strip_leading(host, '[');
    let kept = lemma_strip_trailing_to(rest, ']');
    let to = from + kept;
    assert(strip_trailing(rest, ']') =~= host.subrange(from, to));
    assert forall|k: int| to <= k < host.len() implies #[trigger] host[k] == ']' by {
        assert(rest[k - from] == host[k]);
    }
    (from, to)
}

proof fn lemma_strip_leading_from(s: Seq<char>, c: char) -> (from: int)
    ensures
        0 <= from <= s.len(),
        strip_leading(s, c) == s.skip(from),
        forall|k: int| 0 <= k < from ==> #[trigger] s[k] == c,
    decreases s.len(),
{
    if s.len() > 0 && s[0] == c {
        let rest = s.skip(1);
        let from = 1 + lemma_strip_leading_from(rest, c);
        assert(strip_leading(s, c) == strip_leading(rest, c));
        assert(rest.skip(from - 1) =~= s.skip(from));
        assert forall|k: int| 0 <= k < from implies #[trigger] s[k] == c by {
            if k > 0 {
                assert(rest[k - 1] == s[k]);
            }
        }
        from
    } else {
        assert(strip_leading(s, c) == s);
        assert(s.skip(0) =~= s);
        0
    }
}

proof fn lemma_strip_trailing_to(s: Seq<char>, c: char) -> (to: int)
    ensures
        0 <= to <= s.len(),
        strip_trailing(s, c) == s.take(to),
        forall|k: int| to <= k < s.len() ==> #[trigger] s[k] == c,
    decreases s.len(),
{
    if s.len() > 0 && s.last() == c {
        let rest = s.drop_last();
        let to = lemma_strip_trailing_to(rest, c);
        assert(strip_trailing(s, c) == strip_trailing(rest, c));
        assert(rest.take(to) =~= s.take(to));
        assert forall|k: int| to <= k < s.len() implies #[trigger] s[k] == c by {
            if k < s.len() - 1 {
                assert(rest[k] == s[k]);
            }
        }
        to
    } else {
        assert(strip_trailing(s, c) == s);
        assert(s.take(s.len() as int) =~= s);
        s.len() as int
    }
}

/// The checks that failed are found one after the other, right before what is
/// found of the player. `at` gives the place of each among the checks.
pub proof fn failed_checks_stand_together(
    report: ReportModel,
    first_party_only: bool,
    host: Option<Seq<char>>,
) -> (at: Seq<int>)
    ensures
        forall|i: int, j: int| 0 <= i < j < at.len() ==> at[i] < at[j],
        forall|k: int|
            0 <= k < report.api_checks.len() ==> (at.contains(k) <==> !(
            #[trigger] report.api_checks[k]).ok),
        ({
            let findings = all_findings(report, first_party_only, host);
            let audio = report.daemon.audio_health->0;
            let from = findings.len() - at.len() - if report.daemon.audio_health is None {
                0int
            } else if audio.connected && audio.we_are_active && audio.is_playing
                && !audio.samples_advancing {
                2
            } else {
                1
            };
            &&& 0 <= from
            &&& forall|i: int|
                0 <= i < at.len() ==> 0 <= #[trigger] at[i] < report.api_checks.len()
                    && findings[from + i].category is Network && findings[from + i].message
                    == report.api_checks[at[i]].name + ": "@ + report.api_checks[at[i]].message
        }),
{
    let at = lemma_failed_checks(report.api_checks);
    let findings = all_findings(report, first_party_only, host);
    let before = first_party_findings(report, first_party_only) + config_findings(report)
        + daemon_findings(report) + token_findings(report) + redirect_findings(host)
        + device_findings(report);
    let g = check_findings(report.api_checks);
    let h = audio_findings(report);
    assert(findings == before + g + h);
    let from = findings.len() - at.len() - h.len();
    assert forall|i: int| 0 <= i < at.len() implies 0 <= #[trigger] at[i] < report.api_checks.len()
        && findings[from + i].category is Network && findings[from + i].message
        == report.api_checks[at[i]].name + ": "@ + report.api_checks[at[i]].message by {
        let check = report.api_checks[at[i]];
        assert(findings[from + i] == g[i]);
        assert(g[i] == check_finding(check));
    }
    assert forall|k: int| 0 <= k < report.api_checks.len() implies (at.contains(k) <==> !(
    #[trigger] report.api_checks[k]).ok) by {
        if at.contains(k) {
            let i = at.index_of(k);
            assert(!report.api_checks[at[i]].ok);
        }
    }
    at
}

/// The words of a report for categories, for health and for checks.
pub proof fn reports_use_these_words(
    category: DoctorFindingCategory,
    health: HealthClass,
    step: ApiStep,
)
    ensures
        match category {
            DoctorFindingCategory::Auth => category.name() == "Auth"@,
            DoctorFindingCategory::Config => category.name() == "Config"@,
            DoctorFindingCategory::Daemon => category.name() == "Daemon"@,
            DoctorFindingCategory::Device => category.name() == "Device"@,
            DoctorFindingCategory::Network => category.name() == "Network"@,
            DoctorFindingCategory::Player => category.name() == "Player"@,
        },
        match health {
            HealthClass::Healthy => health.name() == "healthy"@,
            HealthClass::Degraded => health.name() == "degraded"@,
            HealthClass::Unhealthy => health.name() == "unhealthy"@,
        },
        match step {
            ApiStep::Playback => step.name() == "api playback"@,
            ApiStep::Devices => step.name() == "api devices"@,
            ApiStep::Queue => step.name() == "api queue"@,
            ApiStep::Playlists { .. } => step.name() == "api playlists"@,
            ApiStep::PlaylistsUnsupported => step.name() == "api playlists"@,
            ApiStep::RecentlyPlayed { .. } => step.name() == "api recently played"@,
            ApiStep::RecentlyPlayedUnsupported => step.name() == "api recently played"@,
        },
{
}

/// What a call that looks a report through answers with, where the check of the
/// credentials failed: among it an error of the sign-in in the words of that
/// check.
pub proof fn failed_credentials_are_found(
    report: &DoctorReport,
    first_party_only: bool,
    answer: Vec<DoctorFinding>,
)
    requires
        call_ensures(build_findings, (report, first_party_only), answer),
        !report@.keychain_token.ok,
    ensures
        exists|i: int|
            0 <= i < answer@.len() && (#[trigger] answer@[i])@.category
                == DoctorFindingCategory::Auth && answer@[i]@.severity
                == DoctorFindingSeverity::Error && answer@[i]@.message == "auth token: "@
                + report@.keychain_token.message && answer@[i]@.remediation == seq![
                "spotuify login"@,
            ],
{
    let host = rejected_host_of(report@);
    missing_credentials_are_an_error(report@, first_party_only, host);
    let findings = all_findings(report@, first_party_only, host);
    let i = choose|i: int|
        0 <= i < findings.len() && (#[trigger] findings[i]).category == DoctorFindingCategory::Auth
            && findings[i].severity == DoctorFindingSeverity::Error && findings[i].message
            == "auth token: "@ + report@.keychain_token.message && findings[i].remediation == seq![
            "spotuify login"@,
        ];
    assert(seq_view(answer@)[i] == answer@[i]@);
}

/// A report that is finished without credentials is unhealthy, and one that is
/// finished without any finding but information is healthy.
pub proof fn finished_reports_tell_the_worst(first_party_only: bool)
    ensures
        forall|report: &mut DoctorReport|
            #[trigger] call_ensures(finalize_report, (report, first_party_only), ())
                && !mut_ref_current(report)@.keychain_token.ok ==> !mut_ref_future(report)@.healthy
                && mut_ref_future(report)@.health_class == HealthClass::Unhealthy,
        forall|report: &mut DoctorReport|
            #[trigger] call_ensures(finalize_report, (report, first_party_only), ()) && (forall|
                i: int,
            |
                0 <= i < mut_ref_future(report)@.findings.len() ==> (
                #[trigger] mut_ref_future(report)@.findings[i]).severity
                    == DoctorFindingSeverity::Info) ==> mut_ref_future(report)@.healthy,
{
    assert forall|report: &mut DoctorReport|
        #[trigger] call_ensures(finalize_report, (report, first_party_only), ())
            && !mut_ref_current(report)@.keychain_token.ok implies !mut_ref_future(report)@.healthy
        && mut_ref_future(report)@.health_class == HealthClass::Unhealthy by {
        let before = mut_ref_current(report)@;
        missing_credentials_are_an_error(before, first_party_only, rejected_host_of(before));
    }
    assert forall|report: &mut DoctorReport|
        #[trigger] call_ensures(finalize_report, (report, first_party_only), ()) && (forall|i: int|
            0 <= i < mut_ref_future(report)@.findings.len() ==> (
            #[trigger] mut_ref_future(report)@.findings[i]).severity
                == DoctorFindingSeverity::Info) implies mut_ref_future(report)@.healthy by {
        let before = mut_ref_current(report)@;
        let findings = all_findings(before, first_party_only, rejected_host_of(before));
        health_is_that_of_the_worst_finding(before, findings);
        assert(mut_ref_future(report)@.findings == findings);
    }
}

/// What is found, checked and suggested is what is told of it.
pub proof fn diagnoses_are_answered_as_told()
    ensures
        forall|client_id: &str, answer: String|
            #[trigger] call_ensures(redacted_client_id, (client_id,), answer) ==> {
                &&& answer@ == masked_client_id(client_id@)
            },
        forall|message: &str, answer: bool|
            #[trigger] call_ensures(is_rate_limited, (message,), answer) ==> {
                &&& answer == speaks_of_rate_limit(message@)
            },
        forall|
            name: &str,
            outcome: ApiOutcome,
            elapsed_ms: u64,
            answer: (DoctorCheck, Option<u64>),
        |
            #[trigger] call_ensures(timed_api, (name, outcome, elapsed_ms), answer) ==> {
                &&& answer.0@ == api_check_of(name@, outcome, elapsed_ms)
                &&& answer.1 == retry_after(outcome)
            },
        forall|transport_available: bool, caps: &ProviderCaps, answer: Vec<ApiStep>|
            #[trigger] call_ensures(plan_api_checks, (transport_available, caps), answer) ==> {
                &&& answer@ == planned_steps(transport_available, *caps)
            },
        forall|preferred: Option<&str>, devices: &[Device], answer: DeviceDiagnostics|
            #[trigger] call_ensures(device_diagnostics, (preferred, devices), answer) ==> {
                &&& answer@ == diagnosed(opt_str(preferred), seq_view(devices@))
            },
        forall|host: Option<String>, answer: Option<String>|
            #[trigger] call_ensures(rejected_redirect_host, (host,), answer) ==> {
                &&& opt_text(answer) == rejected(opt_text(host))
            },
        forall|report: &DoctorReport, first_party_only: bool, answer: Vec<DoctorFinding>|
            #[trigger] call_ensures(build_findings, (report, first_party_only), answer) ==> {
                &&& seq_view(answer@) == all_findings(report@, first_party_only, rejected_host_of(report@))
            },
        forall|findings: &[DoctorFinding], answer: Vec<String>|
            #[trigger] call_ensures(recommended_next_steps, (findings,), answer) ==> {
                &&& texts(answer@) == next_steps(seq_view(findings@))
            },
        forall|report: &mut DoctorReport, first_party_only: bool|
            #[trigger] call_ensures(finalize_report, (report, first_party_only), ()) ==> {
                &&& mut_ref_future(report)@ == finalized(
                    mut_ref_current(report)@,
                    all_findings(mut_ref_current(report)@, first_party_only, rejected_host_of(mut_ref_current(report)@)),
                )
            },
        forall|report: &mut DoctorReport, findings: Vec<DoctorFinding>|
            #[trigger] call_ensures(install_findings, (report, findings), ()) ==> {
                &&& mut_ref_future(report)@ == finalized(mut_ref_current(report)@, seq_view(findings@))
            },
{
}

/// A player session is told to be down exactly where it is this device's and
/// not connected: a warning, with something to do only once the daemon gave up.
pub proof fn lost_player_sessions_are_told(
    connected: bool,
    we_are_active: bool,
    gave_up: bool,
    failures: u32,
    answer: Option<DoctorFinding>,
)
    requires
        call_ensures(player_session_finding, (connected, we_are_active, gave_up, failures), answer),
    ensures
        answer is Some <==> we_are_active && !connected,
        answer matches Some(found) ==> {
            &&& found@.category is Device && found@.severity is Warning
            &&& gave_up ==> found@.remediation == seq!["spotuify reconnect"@] && found@.message
                == "player session is down after "@ + decimal(failures as nat)
                + " reconnect attempts; run `spotuify reconnect` or play something to re-register"@
            &&& !gave_up ==> found@.remediation.len() == 0 && found@.message
                == "player session is down; the daemon is auto-reconnecting"@
        },
{
}

} // verus!
