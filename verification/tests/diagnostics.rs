use spotuify::diagnostics::{
    auth_checks_required, auth_file_check, build_findings, device_diagnostics, finalize_report,
    findings_given_host, is_rate_limited, offline_api_check, plan_api_checks,
    player_session_finding, recommended_next_steps, records_rate_limit, redacted_client_id,
    redirect_host_rejected_by_spotify, rejected_redirect_host, resolved_first_party_only,
    skipped_auth_check, skipped_capability_check, skipped_rate_limit_check, timed_api,
    uses_first_party, ApiOutcome, ApiStep, AudioHealth, CredentialProbe, DaemonStatus,
    DeviceDiagnostics, DoctorCheck, DoctorFinding, DoctorFindingCategory, DoctorFindingSeverity,
    DoctorReport, HealthClass, SystemDiagnostics,
};
use spotuify::doctor_text::{
    assemble_report, csv_row, csv_value, report_csv, report_table, OauthSettings, ReportInputs,
};
use spotuify::media::Device;
use spotuify::provider::{ProviderCaps, ProviderError, TransportCaps};

fn device(name: &str, active: bool, restricted: bool) -> Device {
    Device {
        id: Some(format!("id-{name}")),
        name: name.to_string(),
        kind: "Computer".to_string(),
        is_active: active,
        is_restricted: restricted,
        volume_percent: Some(50),
        supports_volume: true,
    }
}

fn token() -> DoctorCheck {
    DoctorCheck {
        name: "auth token".into(),
        ok: true,
        message: "present".into(),
        elapsed_ms: 1,
    }
}

fn daemon() -> DaemonStatus {
    DaemonStatus {
        running: true,
        socket_path: "sock".into(),
        socket_exists: true,
        socket_reachable: true,
        stale_socket: false,
        daemon_pid: Some(1),
        uptime_secs: Some(1),
        protocol_version: 1,
        daemon_version: Some("0.1.0".into()),
        daemon_build_id: Some("build".into()),
        audio_health: None,
    }
}

fn healthy_report() -> DoctorReport {
    DoctorReport {
        healthy: true,
        health_class: HealthClass::Healthy,
        config_path: "spotuify.toml".into(),
        config_ok: true,
        config_error: None,
        logs_path: "spotuify.log".into(),
        client_id: Some("present".into()),
        client_secret_present: Some(false),
        redirect_uri: Some("http://127.0.0.1:8888/callback".into()),
        keychain_token: token(),
        daemon: daemon(),
        api_checks: Vec::new(),
        device_diagnostics: None,
        recommended_next_steps: Vec::new(),
        findings: Vec::new(),
        system: None,
    }
}

#[test]
fn device_diagnostics_reports_preferred_active_and_restricted_devices() {
    let diagnostics = device_diagnostics(
        Some("spotuify-hume"),
        &[
            device("spotuify-hume", false, false),
            device("phone", true, false),
            device("tv", false, true),
        ],
    );

    assert!(diagnostics.preferred_visible);
    assert_eq!(
        diagnostics
            .active_device
            .expect("active device should be reported")
            .name,
        "phone"
    );
    assert_eq!(diagnostics.restricted_devices[0].name, "tv");
    assert_eq!(diagnostics.visible_unrestricted_devices.len(), 2);
}

#[test]
fn restricted_devices_are_not_visible_ones() {
    let diagnostics = device_diagnostics(Some("TV"), &[device("tv", true, true)]);
    assert!(!diagnostics.preferred_visible);
    assert!(diagnostics.active_device.is_some_and(|d| d.restricted && d.has_id));
    let diagnostics = device_diagnostics(Some("TV"), &[device("tv", false, false)]);
    assert!(diagnostics.preferred_visible);
    assert!(!device_diagnostics(None, &[device("tv", false, false)]).preferred_visible);
}

#[test]
fn findings_include_exact_preferred_device_remediation() {
    let mut report = healthy_report();
    report.device_diagnostics = Some(DeviceDiagnostics {
        preferred_configured: None,
        preferred_visible: false,
        active_device: None,
        restricted_devices: Vec::new(),
        visible_unrestricted_devices: Vec::new(),
    });
    report.findings = build_findings(&report, false);

    assert_eq!(
        report.findings[0].remediation,
        vec!["spotuify config set player.device_name spotuify-hume".to_string()]
    );
}

#[test]
fn first_party_only_with_client_id_recommends_dev_app_login() {
    let report = healthy_report();
    let findings = build_findings(&report, true);
    let auth = findings
        .iter()
        .find(|f| f.category == DoctorFindingCategory::Auth)
        .expect("first-party-only finding");
    assert_eq!(auth.severity, DoctorFindingSeverity::Warning);
    assert!(auth.message.contains("rate-limited"), "{}", auth.message);
    assert_eq!(
        auth.remediation,
        vec!["Run `spotuify login --dev-app` to switch to dev-app auth".to_string()]
    );
}

#[test]
fn first_party_only_without_client_id_recommends_onboard() {
    let mut report = healthy_report();
    report.client_id = None;
    let findings = build_findings(&report, true);
    let auth = findings
        .iter()
        .find(|f| f.category == DoctorFindingCategory::Auth)
        .expect("first-party-only finding");
    assert_eq!(
        auth.remediation,
        vec![
            "Run `spotuify onboard` to set up a dev app and switch off rate-limited \
             first-party auth"
                .to_string()
        ]
    );
}

#[test]
fn non_first_party_report_has_no_migration_finding() {
    let report = healthy_report();
    let findings = build_findings(&report, false);
    assert!(!findings
        .iter()
        .any(|f| f.message.contains("First-party Spotify auth")));
    assert!(findings.is_empty());
}

#[test]
fn rate_limited_optional_api_checks_make_doctor_degraded() {
    let mut report = healthy_report();
    report.api_checks.push(DoctorCheck {
        name: "api playlists".into(),
        ok: false,
        message: "Spotify GET /me/playlists was rate limited; retry after 60s".into(),
        elapsed_ms: 1,
    });

    finalize_report(&mut report, false);

    assert!(!report.healthy);
    assert_eq!(report.health_class, HealthClass::Degraded);
    assert_eq!(report.findings[0].severity, DoctorFindingSeverity::Warning);
    assert_eq!(
        report.findings[0].remediation,
        vec!["wait for Spotify rate limit reset".to_string()]
    );
}

#[test]
fn doctor_persists_typed_provider_retry_after() {
    let (check, retry_after_secs) = timed_api(
        "api playlists",
        ApiOutcome::Failed {
            error: ProviderError::RateLimited {
                scope: Some("playlists".to_string()),
                retry_after_ms: Some(30_000),
            },
        },
        4,
    );
    assert_eq!(retry_after_secs, Some(30));
    assert!(!check.ok);
    assert!(records_rate_limit(&check) == check.message.contains("rate limit"));
}

#[test]
fn daemon_unreachable_makes_doctor_degraded() {
    let mut report = healthy_report();
    report.daemon.running = false;
    report.daemon.socket_exists = false;
    report.daemon.socket_reachable = false;
    report.daemon.daemon_pid = None;

    finalize_report(&mut report, false);

    assert!(!report.healthy);
    assert_eq!(report.health_class, HealthClass::Degraded);
    assert_eq!(report.findings[0].category, DoctorFindingCategory::Daemon);
    assert_eq!(report.findings[0].message, "daemon is not running");
    assert_eq!(report.daemon.socket_path, "sock");
}

#[test]
fn core_playback_api_failure_makes_doctor_unhealthy() {
    let mut report = healthy_report();
    report.api_checks.push(DoctorCheck {
        name: "api playback".into(),
        ok: false,
        message: "request failed".into(),
        elapsed_ms: 1,
    });

    finalize_report(&mut report, false);

    assert!(!report.healthy);
    assert_eq!(report.health_class, HealthClass::Unhealthy);
    assert_eq!(report.findings[0].severity, DoctorFindingSeverity::Error);
}

#[test]
fn findings_come_in_their_order() {
    let mut report = healthy_report();
    report.config_ok = false;
    report.daemon.socket_reachable = false;
    report.daemon.stale_socket = true;
    report.keychain_token.ok = false;
    report.keychain_token.message = "missing".into();
    report.redirect_uri = Some("http://localhost:8888/callback".into());
    report.device_diagnostics = Some(device_diagnostics(Some("hume"), &[device("tv", true, true)]));
    report.daemon.audio_health = Some(AudioHealth {
        connected: true,
        we_are_active: true,
        is_playing: true,
        samples_advancing: false,
        reconnect_attempts: 2,
        current_backoff_ms: 500,
        last_stall_ms: Some(1),
    });
    let findings = build_findings(&report, false);
    let messages: Vec<&str> = findings.iter().map(|f| f.message.as_str()).collect();
    assert_eq!(
        messages,
        [
            "config failed to load",
            "daemon socket is stale",
            "auth token: missing",
            "OAuth redirect host `localhost` is rejected by Spotify since the Nov 2025 OAuth migration; only the literal 127.0.0.1 loopback works",
            "preferred Spotify device `hume` is not visible",
            "1 restricted Spotify device(s) visible; Web API commands cannot target them",
            "embedded player: connected=true, playing=true, samples_advancing=false, reconnect_attempts=2, backoff=500ms, last_stall=seen",
            "player connected but no audio is flowing (clock says playing); recovering. Likely an audio-route/keepalive failure (e.g. AirPods), not a network drop.",
        ]
    );
    report.redirect_uri = None;
    assert_eq!(
        findings_given_host(&report, false, Some("localhost".to_string())),
        findings
    );
    report.config_error = Some("no such file".into());
    assert_eq!(build_findings(&report, false)[0].message, "no such file");
}

#[test]
fn redirect_hosts_that_spotify_rejects() {
    let rejected = |uri: &str| redirect_host_rejected_by_spotify(uri);
    assert_eq!(rejected("http://localhost:8888/x").as_deref(), Some("localhost"));
    assert_eq!(rejected("http://LOCALHOST/x").as_deref(), Some("localhost"));
    assert_eq!(rejected("http://[::1]:8888/x").as_deref(), Some("[::1]"));
    assert_eq!(rejected("http://127.0.0.1:8888/x"), None);
    assert_eq!(rejected("localhost"), None);
    assert_eq!(rejected("data:text/plain,localhost"), None);
    let given = |host: &str| rejected_redirect_host(Some(host.to_string()));
    assert_eq!(given("LocalHost").as_deref(), Some("LocalHost"));
    assert_eq!(given("::1").as_deref(), Some("::1"));
    assert_eq!(given("[[::1]]").as_deref(), Some("[[::1]]"));
    assert_eq!(given("::2"), None);
    assert_eq!(rejected_redirect_host(None), None);
}

#[test]
fn next_steps_are_listed_once() {
    let finding = |steps: &[&str]| DoctorFinding {
        category: DoctorFindingCategory::Auth,
        severity: DoctorFindingSeverity::Info,
        message: String::new(),
        remediation: steps.iter().map(|s| s.to_string()).collect(),
    };
    assert_eq!(
        recommended_next_steps(&[finding(&["b", "a"]), finding(&["a", "c"])]),
        ["b", "a", "c"]
    );
    assert_eq!(
        recommended_next_steps(&[]),
        [
            "spotuify status",
            "spotuify search \"luther vandross\" --type track"
        ]
    );
}

#[test]
fn client_ids_are_masked() {
    assert_eq!(redacted_client_id("12345678"), "present");
    assert_eq!(redacted_client_id("123456789"), "1234...6789");
    assert_eq!(redacted_client_id(""), "present");
}

#[test]
fn credentials_are_checked_where_they_are_needed() {
    assert!(auth_checks_required(false, false, false));
    assert!(auth_checks_required(false, true, true));
    assert!(!auth_checks_required(false, true, false));
    assert!(!auth_checks_required(true, true, true));
    assert!(uses_first_party(true, None, true));
    assert!(!uses_first_party(true, Some(false), true));
    assert!(!uses_first_party(false, Some(true), true));
    assert!(resolved_first_party_only(None, true));
    assert!(!resolved_first_party_only(Some(true), false));
    assert!(!resolved_first_party_only(Some(false), true));
    assert!(skipped_auth_check("x").ok);
    let message = |probe| auth_file_check(probe, 3).message;
    assert_eq!(
        message(CredentialProbe::Found {
            status: "fine".to_string()
        }),
        "fine"
    );
    assert_eq!(
        message(CredentialProbe::Missing),
        "missing; run `spotuify login`"
    );
    assert_eq!(
        message(CredentialProbe::Failed {
            error: "io".to_string()
        }),
        "io"
    );
    assert!(message(CredentialProbe::TimedOut).starts_with("timed out after "));
    assert!(!auth_file_check(CredentialProbe::TimedOut, 3).ok);
}

#[test]
fn api_checks_say_what_came_of_them() {
    let (check, wait) = timed_api("api queue", ApiOutcome::Answered, 9);
    assert_eq!((check.ok, check.message.as_str(), wait), (true, "ok", None));
    assert_eq!(check.elapsed_ms, 9);
    let (check, wait) = timed_api("api queue", ApiOutcome::TimedOut, 9);
    assert!(!check.ok && wait.is_none());
    let limited = |ms| ApiOutcome::Failed {
        error: ProviderError::RateLimited {
            scope: None,
            retry_after_ms: ms,
        },
    };
    assert_eq!(timed_api("x", limited(Some(10)), 0).1, Some(1));
    assert_eq!(timed_api("x", limited(Some(2_999)), 0).1, Some(2));
    assert_eq!(timed_api("x", limited(None), 0).1, None);
    assert!(is_rate_limited("Hit the RATE LIMIT"));
    assert!(!is_rate_limited("rate-limit"));
    assert_eq!(
        skipped_rate_limit_check("x", 1_001).message,
        "skipped; provider rate limit cooldown has 2s remaining"
    );
    assert_eq!(
        skipped_rate_limit_check("x", 1_000).message,
        "skipped; provider rate limit cooldown has 1s remaining"
    );
    assert!(skipped_capability_check("x").ok);
    assert_eq!(offline_api_check(true, false), None);
    assert!(offline_api_check(true, true)
        .unwrap()
        .message
        .contains("through the daemon"));
    assert!(offline_api_check(false, true)
        .unwrap()
        .message
        .contains("outside the daemon"));
}

#[test]
fn api_checks_follow_the_capabilities() {
    let mut caps = ProviderCaps::default();
    assert_eq!(
        plan_api_checks(true, &caps),
        [
            ApiStep::PlaylistsUnsupported,
            ApiStep::RecentlyPlayedUnsupported
        ]
    );
    caps.transport = Some(TransportCaps {
        playback_state: true,
        queue_read: true,
        ..Default::default()
    });
    caps.playlists.list = true;
    caps.playlists.list_max_page_size = Some(0);
    caps.catalog.recently_played = true;
    assert_eq!(
        plan_api_checks(true, &caps),
        [
            ApiStep::Playback,
            ApiStep::Queue,
            ApiStep::Playlists { limit: 1 },
            ApiStep::RecentlyPlayed { limit: 20 }
        ]
    );
    assert_eq!(plan_api_checks(false, &caps).len(), 2);
    assert_eq!(ApiStep::Devices.label(), "api devices");
    assert_eq!(
        ApiStep::RecentlyPlayed { limit: 1 }.rate_limit_domain(),
        Some("recent")
    );
    assert_eq!(ApiStep::Queue.rate_limit_domain(), None);
}

#[test]
fn player_sessions_are_diagnosed() {
    assert_eq!(player_session_finding(true, true, true, 3), None);
    assert_eq!(player_session_finding(false, false, true, 3), None);
    let finding = player_session_finding(false, true, true, 3).unwrap();
    assert!(finding.message.contains("after 3 reconnect attempts"));
    assert_eq!(finding.remediation, ["spotuify reconnect"]);
    let finding = player_session_finding(false, true, false, 3).unwrap();
    assert!(finding.remediation.is_empty());
}

fn inputs() -> ReportInputs {
    ReportInputs {
        config_path: "c.toml".to_string(),
        config_error: None,
        logs_path: "l.log".to_string(),
        settings: Some(OauthSettings {
            client_id: Some("0123456789".to_string()),
            client_secret_present: true,
            redirect_uri: None,
        }),
        auth_required: false,
        auth_token: token(),
        disk_token_status: "fresh".to_string(),
        daemon: daemon(),
        api_checks: vec![],
        device_diagnostics: None,
        system: Some(SystemDiagnostics {
            media_controls_enabled: true,
            media_controls_bus_name: Some("a,b".to_string()),
            hooks_enabled: false,
            hook_command: None,
            hook_timeout_ms: Some(250),
            notifications_enabled: true,
            discord_enabled: false,
            discord_application_id: None,
        }),
    }
}

#[test]
fn reports_are_put_together() {
    let event = player_session_finding(false, true, false, 0).unwrap();
    let report = assemble_report(inputs(), false, vec![event.clone()]);
    assert_eq!(report.client_id.as_deref(), Some("0123...6789"));
    assert_eq!(
        report.redirect_uri.as_deref(),
        Some("http://127.0.0.1:8888/callback")
    );
    assert_eq!(report.api_checks.len(), 1);
    assert_eq!(
        report.api_checks[0].message,
        "skipped: no configured provider requires Spotify OAuth"
    );
    // What the daemon's events add does not count towards the report's health.
    assert_eq!(report.findings, [event]);
    assert!(report.healthy);
}

#[test]
fn reports_are_written_as_rows() {
    let report = assemble_report(inputs(), false, vec![]);
    assert_eq!(
        report_csv(&report),
        [
            "name,ok,elapsed_ms,message",
            "auth token,true,1,present",
            "auth file,true,0,skipped: no configured provider requires Spotify OAuth",
            "media controls,true,0,\"a,b\"",
            "shell hook,false,250,-",
            "notifications,true,0,-",
            "discord rpc,false,0,-",
        ]
    );
    // The first row is that of the credentials, whatever their check is named.
    let mut renamed = assemble_report(inputs(), false, vec![]);
    renamed.keychain_token.name = "other".into();
    assert_eq!(report_csv(&renamed), report_csv(&report));
    assert_eq!(csv_value("plain"), "plain");
    assert_eq!(csv_value("a \"b\""), "\"a \"\"b\"\"\"");
    assert_eq!(csv_value("a\nb"), "\"a\nb\"");
    assert_eq!(csv_row(&["a", "b,c"]), "a,\"b,c\"");
    assert_eq!(csv_row(&[]), "");
}

#[test]
fn reports_are_written_as_a_table() {
    let report = assemble_report(inputs(), false, vec![]);
    let lines = report_table(&report);
    assert_eq!(lines[0], "Health:       healthy");
    assert_eq!(lines[1], "Healthy:      true");
    assert_eq!(lines[2], "Daemon:       running (pid 1)");
    assert_eq!(
        lines[3],
        "Socket:       reachable (exists: true, stale: false)"
    );
    assert_eq!(lines[4], "Config:       c.toml (ok: true)");
    assert_eq!(lines[5], "Logs:         l.log");
    assert_eq!(lines[6], "Client ID:    0123...6789");
    assert_eq!(lines[7], "Client secret: present");
    assert_eq!(lines[8], "Redirect URI: http://127.0.0.1:8888/callback");
    assert_eq!(lines[9], "Auth token:   present (1ms)");
}
