//! Putting a doctor's report together, and writing it out as a table or as
//! comma-separated values.

use vstd::prelude::*;
use vstd::string::*;

use crate::diagnostics::{
    CheckModel, DaemonStatus, DeviceDiagnostics, DeviceSummaryModel, DevicesModel, DoctorCheck,
    DoctorFinding, DoctorReport, FindingModel, HealthClass, ReportModel, SystemDiagnostics,
    SystemModel, all_findings, bool_str, finalize_report, finalized, masked_client_id,
    redacted_client_id, rejected_host_of, truth,
};
use crate::text::{
    chars_of, concat2, concat3, concat4, concat5, decimal, join_texts, joined, lemma_joined_first,
    lemma_seq_view_push, lemma_texts_push, opt_text, opt_view, seq_view, texts, u64_text,
};

verus! {

broadcast use {lemma_seq_view_push, lemma_texts_push};

// ---------------------------------------------------------------------------
// Putting a report together
// ---------------------------------------------------------------------------

/// What the settings say of a provider that signs in.
#[derive(Clone, Debug, PartialEq, Eq)]
pub struct OauthSettings {
    pub client_id: Option<String>,
    pub client_secret_present: bool,
    pub redirect_uri: Option<String>,
}

/// What a report is put together from. `config_error` is absent where the
/// settings could be read, and `settings` where they name no provider that
/// signs in.
#[derive(Debug)]
pub struct ReportInputs {
    pub config_path: String,
    pub config_error: Option<String>,
    pub logs_path: String,
    pub settings: Option<OauthSettings>,
    pub auth_required: bool,
    pub auth_token: DoctorCheck,
    pub disk_token_status: String,
    pub daemon: DaemonStatus,
    pub api_checks: Vec<DoctorCheck>,
    pub device_diagnostics: Option<DeviceDiagnostics>,
    pub system: Option<SystemDiagnostics>,
}

/// The check of the file that credentials are cached in.
pub open spec fn disk_check(auth_required: bool, status: Seq<char>) -> CheckModel {
    CheckModel {
        name: "auth file"@,
        ok: true,
        message: if auth_required {
            status
        } else {
            "skipped: no configured provider requires Spotify OAuth"@
        },
        elapsed_ms: 0,
    }
}

/// The report before anything is made of it.
pub open spec fn raw_report(inputs: ReportInputs) -> ReportModel {
    ReportModel {
        healthy: true,
        health_class: HealthClass::Healthy,
        config_path: inputs.config_path@,
        config_ok: inputs.config_error is None,
        config_error: opt_text(inputs.config_error),
        logs_path: inputs.logs_path@,
        client_id: match inputs.settings {
            Some(settings) => match settings.client_id {
                Some(id) => Some(masked_client_id(id@)),
                None => None,
            },
            None => None,
        },
        client_secret_present: match inputs.settings {
            Some(settings) => Some(settings.client_secret_present),
            None => None,
        },
        redirect_uri: match inputs.settings {
            Some(settings) => match settings.redirect_uri {
                Some(uri) => Some(uri@),
                None => Some("http://127.0.0.1:8888/callback"@),
            },
            None => None,
        },
        keychain_token: inputs.auth_token@,
        daemon: inputs.daemon@,
        api_checks: seq_view(inputs.api_checks@).push(
            disk_check(inputs.auth_required, inputs.disk_token_status@),
        ),
        device_diagnostics: opt_view(inputs.device_diagnostics),
        recommended_next_steps: Seq::empty(),
        findings: Seq::empty(),
        system: opt_view(inputs.system),
    }
}

/// A report with findings of another origin behind its own. They change
/// neither what to do next nor how healthy everything counts.
pub open spec fn with_event_findings(report: ReportModel, events: Seq<FindingModel>) ->
    ReportModel {
    ReportModel { findings: report.findings + events, ..report }
}

fn draft_report(inputs: ReportInputs) -> (r: DoctorReport)
    ensures
        r@ == raw_report(inputs),
{
    let disk_message = if inputs.auth_required {
        inputs.disk_token_status
    } else {
        "skipped: no configured provider requires Spotify OAuth".to_owned()
    };
    let disk = DoctorCheck {
        name: "auth file".to_owned(),
        ok: true,
        message: disk_message,
        elapsed_ms: 0,
    };
    let mut api_checks = inputs.api_checks;
    api_checks.push(disk);
    let (client_id, client_secret_present, redirect_uri) = match inputs.settings {
        Some(settings) => (
            match settings.client_id {
                Some(id) => Some(redacted_client_id(id.as_str())),
                None => None,
            },
            Some(settings.client_secret_present),
            match settings.redirect_uri {
                Some(uri) => Some(uri),
                None => Some("http://127.0.0.1:8888/callback".to_owned()),
            },
        ),
        None => (None, None, None),
    };
    let steps: Vec<String> = Vec::new();
    let findings: Vec<DoctorFinding> = Vec::new();
    assert(texts(steps@) =~= Seq::<Seq<char>>::empty());
    assert(seq_view(findings@) =~= Seq::<FindingModel>::empty());
    DoctorReport {
        healthy: true,
        health_class: HealthClass::Healthy,
        config_path: inputs.config_path,
        config_ok: inputs.config_error.is_none(),
        config_error: inputs.config_error,
        logs_path: inputs.logs_path,
        client_id,
        client_secret_present,
        redirect_uri,
        keychain_token: inputs.auth_token,
        daemon: inputs.daemon,
        api_checks,
        device_diagnostics: inputs.device_diagnostics,
        recommended_next_steps: steps,
        findings,
        system: inputs.system,
    }
}

fn append_findings(report: &mut DoctorReport, events: Vec<DoctorFinding>)
    ensures
        final(report)@ == with_event_findings(old(report)@, seq_view(events@)),
{
    let ghost before = report@;
    let ghost more = seq_view(events@);
    let mut events = events;
    report.findings.append(&mut events);
    assert(report@.findings =~= before.findings + more);
}

/// Puts a report together from what was collected, and appends what the
/// daemon's recent events gave.
pub fn assemble_report(
    inputs: ReportInputs,
    first_party_only: bool,
    event_findings: Vec<DoctorFinding>,
) -> (r: DoctorReport)
    ensures
        ({
            let raw = raw_report(inputs);
            r@ == with_event_findings(
                finalized(raw, all_findings(raw, first_party_only, rejected_host_of(raw))),
                seq_view(event_findings@),
            )
        }),
{
    let mut report = draft_report(inputs);
    finalize_report(&mut report, first_party_only);
    append_findings(&mut report, event_findings);
    report
}

// ---------------------------------------------------------------------------
// Comma-separated values
// ---------------------------------------------------------------------------

/// Whether a character makes a value stand in quotes.
pub open spec fn is_csv_special(c: char) -> bool {
    c == ',' || c == '"' || c == '\n' || c == '\r'
}

/// Whether a value has to stand in quotes.
pub open spec fn needs_quotes(s: Seq<char>) -> bool {
    exists|i: int| 0 <= i < s.len() && is_csv_special(#[trigger] s[i])
}

/// A text with every quote doubled.
pub open spec fn doubled(s: Seq<char>) -> Seq<char>
    decreases s.len(),
{
    if s.len() == 0 {
        Seq::empty()
    } else if s.last() == '"' {
        doubled(s.drop_last()).push('"').push('"')
    } else {
        doubled(s.drop_last()).push(s.last())
    }
}

/// A value as a row holds it.
pub open spec fn csv_field(s: Seq<char>) -> Seq<char> {
    if needs_quotes(s) {
        seq!['"'] + doubled(s) + seq!['"']
    } else {
        s
    }
}

/// A row of values.
pub open spec fn csv_line(values: Seq<Seq<char>>) -> Seq<char> {
    joined(Seq::new(values.len(), |i: int| csv_field(values[i])), seq![','])
}

/// A value as a row holds it: in quotes where it has to be.
pub fn csv_value(value: &str) -> (r: String)
    ensures
        r@ == csv_field(value@),
{
    let v = chars_of(value);
    let mut special = false;
    let mut doubled_text = String::new();
    let mut i: usize = 0;
    assert(v@.take(0) =~= Seq::<char>::empty());
    while i < v.len()
        invariant
            i <= v@.len(),
            v@ == value@,
            special == (exists|k: int| 0 <= k < i && is_csv_special(#[trigger] v@[k])),
            doubled_text@ == doubled(v@.take(i as int)),
        decreases v@.len() - i,
    {
        let c = v[i];
        proof {
            assert(v@.take(i as int + 1).drop_last() =~= v@.take(i as int));
            assert(v@.take(i as int + 1).last() == c);
        }
        if c == ',' || c == '"' || c == '\n' || c == '\r' {
            special = true;
        }
        if c == '"' {
            doubled_text.push('"');
            doubled_text.push('"');
        } else {
            doubled_text.push(c);
        }
        i = i + 1;
    }
    assert(v@.take(v@.len() as int) =~= v@);
    if special {
        let mut out = String::new();
        out.push('"');
        out.append(doubled_text.as_str());
        out.push('"');
        assert(out@ =~= csv_field(value@));
        out
    } else {
        value.to_owned()
    }
}

/// A row of four values.
fn csv_row4(a: &str, b: &str, c: &str, d: &str) -> (r: String)
    ensures
        r@ == csv_line(seq![a@, b@, c@, d@]),
{
    let mut fields: Vec<String> = Vec::new();
    fields.push(csv_value(a));
    fields.push(csv_value(b));
    fields.push(csv_value(c));
    fields.push(csv_value(d));
    proof {
        let values = seq![a@, b@, c@, d@];
        assert(texts(fields@) =~= Seq::new(values.len(), |i: int| csv_field(values[i])));
        reveal_strlit(",");
        assert(","@ =~= seq![',']);
    }
    join_texts(fields.as_slice(), ",")
}

/// A row of values, in quotes where they have to be.
pub fn csv_row(values: &[&str]) -> (r: String)
    ensures
        r@ == csv_line(Seq::new(values@.len(), |i: int| values@[i]@)),
{
    let ghost all = Seq::new(values@.len(), |i: int| values@[i]@);
    let ghost wanted = Seq::new(all.len(), |i: int| csv_field(all[i]));
    let mut fields: Vec<String> = Vec::new();
    let mut i: usize = 0;
    assert(texts(fields@) =~= wanted.take(0));
    while i < values.len()
        invariant
            i <= values@.len(),
            all == Seq::new(values@.len(), |k: int| values@[k]@),
            wanted == Seq::new(all.len(), |k: int| csv_field(all[k])),
            texts(fields@) =~= wanted.take(i as int),
        decreases values@.len() - i,
    {
        fields.push(csv_value(values[i]));
        i = i + 1;
    }
    proof {
        assert(wanted.take(wanted.len() as int) =~= wanted);
        reveal_strlit(",");
        assert(","@ =~= seq![',']);
    }
    join_texts(fields.as_slice(), ",")
}

/// The row of a check.
pub open spec fn check_row(check: CheckModel) -> Seq<char> {
    csv_line(
        seq![check.name, truth(check.ok), decimal(check.elapsed_ms as nat), check.message],
    )
}

/// A text, or a dash where there is none.
pub open spec fn or_dash(o: Option<Seq<char>>) -> Seq<char> {
    match o {
        Some(s) => s,
        None => "-"@,
    }
}

/// A length of time, or zero where there is none.
pub open spec fn ms_or_zero(o: Option<u64>) -> nat {
    match o {
        Some(ms) => ms as nat,
        None => 0,
    }
}

/// The rows of the desktop.
pub open spec fn system_rows(system: SystemModel) -> Seq<Seq<char>> {
    seq![
        csv_line(
            seq![
                "media controls"@,
                truth(system.media_controls_enabled),
                "0"@,
                or_dash(system.media_controls_bus_name),
            ],
        ),
        csv_line(
            seq![
                "shell hook"@,
                truth(system.hooks_enabled),
                decimal(ms_or_zero(system.hook_timeout_ms)),
                or_dash(system.hook_command),
            ],
        ),
        csv_line(seq!["notifications"@, truth(system.notifications_enabled), "0"@, "-"@]),
        csv_line(
            seq![
                "discord rpc"@,
                truth(system.discord_enabled),
                "0"@,
                or_dash(system.discord_application_id),
            ],
        ),
    ]
}

/// The row of the credentials, whatever their check is named.
pub open spec fn token_row(token: CheckModel) -> Seq<char> {
    csv_line(
        seq!["auth token"@, truth(token.ok), decimal(token.elapsed_ms as nat), token.message],
    )
}

/// A report as comma-separated values, line by line.
pub open spec fn csv_lines(report: ReportModel) -> Seq<Seq<char>> {
    seq!["name,ok,elapsed_ms,message"@, token_row(report.keychain_token)] + Seq::new(
        report.api_checks.len(),
        |i: int| check_row(report.api_checks[i]),
    ) + match report.system {
        Some(system) => system_rows(system),
        None => Seq::empty(),
    }
}

fn dash_or(o: &Option<String>) -> (r: &str)
    ensures
        r@ == or_dash(opt_text(*o)),
{
    match o {
        Some(s) => s.as_str(),
        None => "-",
    }
}

fn row_of(check: &DoctorCheck) -> (r: String)
    ensures
        r@ == check_row(check@),
{
    let elapsed = u64_text(check.elapsed_ms);
    csv_row4(
        check.name.as_str(),
        bool_str(check.ok),
        elapsed.as_str(),
        check.message.as_str(),
    )
}

/// A report as comma-separated values, line by line.
pub fn report_csv(report: &DoctorReport) -> (r: Vec<String>)
    ensures
        texts(r@) == csv_lines(report@),
{
    let mut lines: Vec<String> = Vec::new();
    lines.push("name,ok,elapsed_ms,message".to_owned());
    let token = &report.keychain_token;
    let elapsed = u64_text(token.elapsed_ms);
    lines.push(
        csv_row4("auth token", bool_str(token.ok), elapsed.as_str(), token.message.as_str()),
    );
    let ghost head = seq!["name,ok,elapsed_ms,message"@, token_row(report@.keychain_token)];
    let ghost rows = Seq::new(
        report@.api_checks.len(),
        |i: int| check_row(report@.api_checks[i]),
    );
    let mut i: usize = 0;
    assert(texts(lines@) =~= head + rows.take(0));
    while i < report.api_checks.len()
        invariant
            i <= report.api_checks@.len(),
            rows == Seq::new(
                report@.api_checks.len(),
                |k: int| check_row(report@.api_checks[k]),
            ),
            texts(lines@) =~= head + rows.take(i as int),
        decreases report.api_checks@.len() - i,
    {
        lines.push(row_of(&report.api_checks[i]));
        i = i + 1;
    }
    assert(rows.take(rows.len() as int) =~= rows);
    let ghost before = texts(lines@);
    if let Some(system) = &report.system {
        lines.push(
            csv_row4(
                "media controls",
                bool_str(system.media_controls_enabled),
                "0",
                dash_or(&system.media_controls_bus_name),
            ),
        );
        let timeout = u64_text(system.hook_timeout_ms.unwrap_or(0));
        assert(timeout@ == decimal(ms_or_zero(system@.hook_timeout_ms)));
        lines.push(
            csv_row4(
                "shell hook",
                bool_str(system.hooks_enabled),
                timeout.as_str(),
                dash_or(&system.hook_command),
            ),
        );
        lines.push(csv_row4("notifications", bool_str(system.notifications_enabled), "0", "-"));
        lines.push(
            csv_row4(
                "discord rpc",
                bool_str(system.discord_enabled),
                "0",
                dash_or(&system.discord_application_id),
            ),
        );
        assert(texts(lines@) =~= before + system_rows(system@));
    }
    assert(texts(lines@) =~= csv_lines(report@));
    lines
}

/// What a reader makes of a value in a row.
pub open spec fn csv_read(s: Seq<char>) -> Seq<char> {
    if s.len() >= 2 && s[0] == '"' {
        undoubled(s.subrange(1, s.len() - 1))
    } else {
        s
    }
}

/// A text with every two quotes in a row made one.
pub open spec fn undoubled(s: Seq<char>) -> Seq<char>
    decreases s.len(),
{
    if s.len() == 0 {
        Seq::empty()
    } else if s.len() >= 2 && s.last() == '"' && s[s.len() - 2] == '"' {
        undoubled(s.take(s.len() - 2)).push('"')
    } else {
        undoubled(s.drop_last()).push(s.last())
    }
}

proof fn lemma_undoubled(s: Seq<char>)
    ensures
        undoubled(doubled(s)) == s,
    decreases s.len(),
{
    if s.len() > 0 {
        let init = s.drop_last();
        lemma_undoubled(init);
        let d = doubled(init);
        if s.last() == '"' {
            let all = d.push('"').push('"');
            assert(all.take(all.len() - 2) =~= d);
            assert(undoubled(all) =~= s);
        } else {
            let all = d.push(s.last());
            assert(all.drop_last() =~= d);
            assert(undoubled(all) =~= s);
        }
    } else {
        assert(undoubled(doubled(s)) =~= s);
    }
}

/// A reader gets every value back as it was written.
pub proof fn csv_values_read_back(s: Seq<char>)
    ensures
        csv_read(csv_field(s)) == s,
{
    if needs_quotes(s) {
        let f = csv_field(s);
        assert(f.subrange(1, f.len() - 1) =~= doubled(s));
        lemma_undoubled(s);
    } else if s.len() > 0 {
        assert(!is_csv_special(s[0]));
    }
}

/// How long the first cell of a row is: up to the first comma that does not
/// stand in quotes.
pub open spec fn cell_end(s: Seq<char>, quoted: bool) -> nat
    decreases s.len(),
{
    if s.len() == 0 || (s[0] == ',' && !quoted) {
        0
    } else {
        1 + cell_end(s.skip(1), quoted != (s[0] == '"'))
    }
}

/// What a reader makes of a row.
pub open spec fn csv_cells(s: Seq<char>) -> Seq<Seq<char>>
    decreases s.len(),
{
    let end = cell_end(s, false) as int;
    if end >= s.len() {
        seq![csv_read(s)]
    } else {
        seq![csv_read(s.take(end))] + csv_cells(s.skip(end + 1))
    }
}

/// Whether the end of a text stands in quotes.
spec fn quoted_after(s: Seq<char>, quoted: bool) -> bool
    decreases s.len(),
{
    if s.len() == 0 {
        quoted
    } else {
        quoted_after(s.skip(1), quoted != (s[0] == '"'))
    }
}

proof fn lemma_cell_end_of_sum(a: Seq<char>, b: Seq<char>, quoted: bool)
    requires
        cell_end(a, quoted) == a.len(),
    ensures
        cell_end(a + b, quoted) == a.len() + cell_end(b, quoted_after(a, quoted)),
        quoted_after(a + b, quoted) == quoted_after(b, quoted_after(a, quoted)),
    decreases a.len(),
{
    if a.len() == 0 {
        assert(a + b =~= b);
    } else {
        assert((a + b).skip(1) =~= a.skip(1) + b);
        lemma_cell_end_of_sum(a.skip(1), b, quoted != (a[0] == '"'));
    }
}

proof fn lemma_plain_cell(s: Seq<char>)
    requires
        !needs_quotes(s),
    ensures
        cell_end(s, false) == s.len(),
        !quoted_after(s, false),
    decreases s.len(),
{
    if s.len() > 0 {
        assert(!is_csv_special(s[0]));
        assert forall|i: int| 0 <= i < s.skip(1).len() implies !is_csv_special(
            #[trigger] s.skip(1)[i],
        ) by {
            assert(s.skip(1)[i] == s[i + 1]);
        }
        lemma_plain_cell(s.skip(1));
    }
}

proof fn lemma_doubled_cell(s: Seq<char>)
    ensures
        cell_end(doubled(s), true) == doubled(s).len(),
        quoted_after(doubled(s), true),
    decreases s.len(),
{
    if s.len() > 0 {
        let before = doubled(s.drop_last());
        lemma_doubled_cell(s.drop_last());
        let tail = if s.last() == '"' {
            seq!['"', '"']
        } else {
            seq![s.last()]
        };
        assert(doubled(s) =~= before + tail);
        assert(tail.skip(1).skip(1) =~= Seq::<char>::empty() || tail.len() == 1);
        reveal_with_fuel(cell_end, 3);
        reveal_with_fuel(quoted_after, 3);
        lemma_cell_end_of_sum(before, tail, true);
    }
}

proof fn lemma_cell(s: Seq<char>, rest: Seq<char>)
    ensures
        cell_end(csv_field(s) + rest, false) == csv_field(s).len() + cell_end(rest, false),
{
    let field = csv_field(s);
    if needs_quotes(s) {
        let open = seq!['"'] + doubled(s);
        assert(open.skip(1) =~= doubled(s));
        lemma_doubled_cell(s);
        reveal_with_fuel(cell_end, 2);
        reveal_with_fuel(quoted_after, 2);
        lemma_cell_end_of_sum(open, seq!['"'], false);
    } else {
        lemma_plain_cell(s);
    }
    lemma_cell_end_of_sum(field, rest, false);
}

/// A reader gets every value of a row back as it was written.
pub proof fn csv_rows_read_back(values: Seq<Seq<char>>)
    requires
        values.len() > 0,
    ensures
        csv_cells(csv_line(values)) == values,
    decreases values.len(),
{
    let fields = Seq::new(values.len(), |i: int| csv_field(values[i]));
    let row = csv_line(values);
    let field = csv_field(values[0]);
    csv_values_read_back(values[0]);
    if values.len() == 1 {
        assert(fields =~= seq![field]);
        assert(row =~= field);
        lemma_cell(values[0], Seq::empty());
        assert(field + Seq::<char>::empty() =~= field);
        assert(csv_cells(row) =~= values);
    } else {
        let others = values.skip(1);
        let other_fields = Seq::new(others.len(), |i: int| csv_field(others[i]));
        csv_rows_read_back(others);
        assert(fields =~= seq![field] + other_fields);
        lemma_joined_first(field, other_fields, seq![',']);
        let rest = seq![','] + csv_line(others);
        assert(row =~= field + rest);
        lemma_cell(values[0], rest);
        assert(row.take(field.len() as int) =~= field);
        assert(row.skip(field.len() as int + 1) =~= csv_line(others));
        assert(csv_cells(row) =~= values);
    }
}

// ---------------------------------------------------------------------------
// The table
// ---------------------------------------------------------------------------

pub open spec fn yes_or_no(b: bool) -> Seq<char> {
    if b {
        "yes"@
    } else {
        "no"@
    }
}

/// `yes` or `no`.
pub fn yes_no(value: bool) -> (r: &'static str)
    ensures
        r@ == yes_or_no(value),
{
    if value {
        "yes"
    } else {
        "no"
    }
}

/// The lines on health and the daemon.
pub open spec fn daemon_lines(report: ReportModel) -> Seq<Seq<char>> {
    seq![
        "Health:       "@ + report.health_class.name(),
        "Healthy:      "@ + truth(report.healthy),
        "Daemon:       "@ + (if report.daemon.running {
            "running"@
        } else {
            "down"@
        }) + match report.daemon.daemon_pid {
            Some(pid) => " (pid "@ + decimal(pid as nat) + ")"@,
            None => ""@,
        },
        "Socket:       "@ + (if report.daemon.socket_reachable {
            "reachable"@
        } else {
            "unreachable"@
        }) + " (exists: "@ + truth(report.daemon.socket_exists) + ", stale: "@ + truth(
            report.daemon.stale_socket,
        ) + ")"@,
    ]
}

/// The lines on the settings and the credentials.
pub open spec fn settings_lines(report: ReportModel) -> Seq<Seq<char>> {
    seq!["Config:       "@ + report.config_path + " (ok: "@ + truth(report.config_ok) + ")"@]
        + match report.config_error {
        Some(error) => seq!["Config error: "@ + error],
        None => Seq::empty(),
    } + seq![
        "Logs:         "@ + report.logs_path,
        "Client ID:    "@ + or_dash(report.client_id),
        "Client secret: "@ + match report.client_secret_present {
            Some(present) => if present {
                "present"@
            } else {
                "missing"@
            },
            None => "-"@,
        },
        "Redirect URI: "@ + or_dash(report.redirect_uri),
        "Auth token:   "@ + report.keychain_token.message + " ("@ + decimal(
            report.keychain_token.elapsed_ms as nat,
        ) + "ms)"@,
    ]
}

/// The lines on health, the daemon, the settings and the credentials.
pub open spec fn head_lines(report: ReportModel) -> Seq<Seq<char>> {
    daemon_lines(report) + settings_lines(report)
}

/// The lines on the desktop.
pub open spec fn system_lines(system: Option<SystemModel>) -> Seq<Seq<char>> {
    match system {
        Some(system) => seq![
            "Media keys:   "@ + yes_or_no(system.media_controls_enabled)
                + match system.media_controls_bus_name {
                Some(name) => " (bus "@ + name + ")"@,
                None => ""@,
            },
            "Hook:         "@ + yes_or_no(system.hooks_enabled) + match system.hook_command {
                Some(command) => " ("@ + command + ", "@ + decimal(
                    ms_or_zero(system.hook_timeout_ms),
                ) + "ms)"@,
                None => ""@,
            },
            "Notifications: "@ + yes_or_no(system.notifications_enabled),
            "Discord RPC:  "@ + yes_or_no(system.discord_enabled)
                + match system.discord_application_id {
                Some(id) => " (app "@ + id + ")"@,
                None => ""@,
            },
        ],
        None => Seq::empty(),
    }
}

/// The line of a device that can be controlled.
pub open spec fn visible_line(device: DeviceSummaryModel) -> Seq<char> {
    "  - "@ + device.name + " ("@ + device.kind + ", "@ + (if device.active {
        "active"@
    } else {
        "idle"@
    }) + ")"@
}

/// The line of a device that cannot be controlled.
pub open spec fn restricted_line(device: DeviceSummaryModel) -> Seq<char> {
    "  - "@ + device.name + " ("@ + device.kind + ", restricted)"@
}

/// The lines on the devices.
pub open spec fn device_lines(devices: Option<DevicesModel>) -> Seq<Seq<char>> {
    match devices {
        Some(devices) => seq![
            "Preferred device configured: "@ + match devices.preferred_configured {
                Some(name) => name,
                None => "not configured"@,
            },
            "Preferred device visible:    "@ + yes_or_no(devices.preferred_visible),
            "Active device:               "@ + match devices.active_device {
                Some(device) => device.name,
                None => "none"@,
            },
            "Restricted devices:          "@ + decimal(devices.restricted_devices.len()),
            "Visible devices:"@,
        ] + Seq::new(
            devices.visible_unrestricted_devices.len(),
            |i: int| visible_line(devices.visible_unrestricted_devices[i]),
        ) + Seq::new(
            devices.restricted_devices.len(),
            |i: int| restricted_line(devices.restricted_devices[i]),
        ),
        None => Seq::empty(),
    }
}

/// The line of a check.
pub open spec fn check_line(check: CheckModel) -> Seq<char> {
    "  "@ + check.name + ": "@ + (if check.ok {
        "ok"@
    } else {
        "failed"@
    }) + " ("@ + decimal(check.elapsed_ms as nat) + "ms) "@ + check.message
}

/// The lines on the checks of the provider's API.
pub open spec fn check_lines(checks: Seq<CheckModel>) -> Seq<Seq<char>> {
    seq![""@, "API checks:"@] + if checks.len() == 0 {
        seq!["  skipped"@]
    } else {
        Seq::new(checks.len(), |i: int| check_line(checks[i]))
    }
}

/// The lines of a finding.
pub open spec fn finding_lines(finding: FindingModel) -> Seq<Seq<char>> {
    seq!["  ["@ + finding.category.name() + "] "@ + finding.message] + Seq::new(
        finding.remediation.len(),
        |i: int| "      -> "@ + finding.remediation[i],
    )
}

/// The lines of all findings.
pub open spec fn all_finding_lines(findings: Seq<FindingModel>) -> Seq<Seq<char>>
    decreases findings.len(),
{
    if findings.len() == 0 {
        Seq::empty()
    } else {
        all_finding_lines(findings.drop_last()) + finding_lines(findings.last())
    }
}

/// The lines on what was found.
pub open spec fn findings_section(findings: Seq<FindingModel>) -> Seq<Seq<char>> {
    if findings.len() == 0 {
        Seq::empty()
    } else {
        seq![""@, "Findings:"@] + all_finding_lines(findings)
    }
}

/// The lines on what to do next.
pub open spec fn next_section(steps: Seq<Seq<char>>) -> Seq<Seq<char>> {
    seq![""@, "Next:"@] + Seq::new(steps.len(), |i: int| "  "@ + steps[i])
}

/// A report as a table, line by line.
pub open spec fn table_lines(report: ReportModel) -> Seq<Seq<char>> {
    head_lines(report) + system_lines(report.system) + device_lines(report.device_diagnostics)
        + check_lines(report.api_checks) + findings_section(report.findings) + next_section(
        report.recommended_next_steps,
    )
}

fn push_daemon(lines: &mut Vec<String>, report: &DoctorReport)
    ensures
        texts(final(lines)@) == texts(old(lines)@) + daemon_lines(report@),
{
    let ghost before = texts(lines@);
    lines.push(concat2("Health:       ", report.health_class.as_str()));
    lines.push(concat2("Healthy:      ", bool_str(report.healthy)));
    let running = if report.daemon.running {
        "running"
    } else {
        "down"
    };
    let pid = match report.daemon.daemon_pid {
        Some(pid) => {
            let n = u64_text(pid as u64);
            concat3(" (pid ", n.as_str(), ")")
        },
        None => "".to_owned(),
    };
    lines.push(concat3("Daemon:       ", running, pid.as_str()));
    let reachable = if report.daemon.socket_reachable {
        "reachable"
    } else {
        "unreachable"
    };
    let mut socket = concat5(
        "Socket:       ",
        reachable,
        " (exists: ",
        bool_str(report.daemon.socket_exists),
        ", stale: ",
    );
    socket.append(bool_str(report.daemon.stale_socket));
    socket.append(")");
    lines.push(socket);
    assert(texts(lines@) =~= before + daemon_lines(report@));
}

fn push_settings(lines: &mut Vec<String>, report: &DoctorReport)
    ensures
        texts(final(lines)@) == texts(old(lines)@) + settings_lines(report@),
{
    let ghost before = texts(lines@);
    lines.push(
        concat5(
            "Config:       ",
            report.config_path.as_str(),
            " (ok: ",
            bool_str(report.config_ok),
            ")",
        ),
    );
    if let Some(error) = &report.config_error {
        lines.push(concat2("Config error: ", error.as_str()));
    }
    lines.push(concat2("Logs:         ", report.logs_path.as_str()));
    lines.push(concat2("Client ID:    ", dash_or(&report.client_id)));
    let secret = match report.client_secret_present {
        Some(present) => if present {
            "present"
        } else {
            "missing"
        },
        None => "-",
    };
    lines.push(concat2("Client secret: ", secret));
    lines.push(concat2("Redirect URI: ", dash_or(&report.redirect_uri)));
    let elapsed = u64_text(report.keychain_token.elapsed_ms);
    lines.push(
        concat5(
            "Auth token:   ",
            report.keychain_token.message.as_str(),
            " (",
            elapsed.as_str(),
            "ms)",
        ),
    );
    assert(texts(lines@) =~= before + settings_lines(report@));
}

fn push_head(lines: &mut Vec<String>, report: &DoctorReport)
    ensures
        texts(final(lines)@) == texts(old(lines)@) + head_lines(report@),
{
    let ghost before = texts(lines@);
    push_daemon(lines, report);
    push_settings(lines, report);
    assert(texts(lines@) =~= before + head_lines(report@));
}

fn push_system(lines: &mut Vec<String>, system: &Option<SystemDiagnostics>)
    ensures
        texts(final(lines)@) == texts(old(lines)@) + system_lines(opt_view(*system)),
{
    let ghost before = texts(lines@);
    if let Some(system) = system {
        let bus = match &system.media_controls_bus_name {
            Some(name) => concat3(" (bus ", name.as_str(), ")"),
            None => "".to_owned(),
        };
        lines.push(
            concat3("Media keys:   ", yes_no(system.media_controls_enabled), bus.as_str()),
        );
        let hook = match &system.hook_command {
            Some(command) => {
                let timeout = u64_text(system.hook_timeout_ms.unwrap_or(0));
                concat5(" (", command.as_str(), ", ", timeout.as_str(), "ms)")
            },
            None => "".to_owned(),
        };
        lines.push(concat3("Hook:         ", yes_no(system.hooks_enabled), hook.as_str()));
        lines.push(concat2("Notifications: ", yes_no(system.notifications_enabled)));
        let app = match &system.discord_application_id {
            Some(id) => concat3(" (app ", id.as_str(), ")"),
            None => "".to_owned(),
        };
        lines.push(concat3("Discord RPC:  ", yes_no(system.discord_enabled), app.as_str()));
    }
    assert(texts(lines@) =~= before + system_lines(opt_view(*system)));
}

fn push_devices(lines: &mut Vec<String>, devices: &Option<DeviceDiagnostics>)
    ensures
        texts(final(lines)@) == texts(old(lines)@) + device_lines(opt_view(*devices)),
{
    let ghost before = texts(lines@);
    if let Some(devices) = devices {
        let preferred = match &devices.preferred_configured {
            Some(name) => name.as_str(),
            None => "not configured",
        };
        lines.push(concat2("Preferred device configured: ", preferred));
        lines.push(
            concat2("Preferred device visible:    ", yes_no(devices.preferred_visible)),
        );
        let active = match &devices.active_device {
            Some(device) => device.name.as_str(),
            None => "none",
        };
        lines.push(concat2("Active device:               ", active));
        let count = u64_text(devices.restricted_devices.len() as u64);
        lines.push(concat2("Restricted devices:          ", count.as_str()));
        lines.push("Visible devices:".to_owned());
        let ghost head = texts(lines@);
        let ghost visible = Seq::new(
            devices@.visible_unrestricted_devices.len(),
            |i: int| visible_line(devices@.visible_unrestricted_devices[i]),
        );
        let mut i: usize = 0;
        assert(head =~= head + visible.take(0));
        while i < devices.visible_unrestricted_devices.len()
            invariant
                i <= devices.visible_unrestricted_devices@.len(),
                visible == Seq::new(
                    devices@.visible_unrestricted_devices.len(),
                    |k: int| visible_line(devices@.visible_unrestricted_devices[k]),
                ),
                texts(lines@) =~= head + visible.take(i as int),
            decreases devices.visible_unrestricted_devices@.len() - i,
        {
            let device = &devices.visible_unrestricted_devices[i];
            let state = if device.active {
                "active"
            } else {
                "idle"
            };
            let mut line = concat5("  - ", device.name.as_str(), " (", device.kind.as_str(), ", ");
            line.append(state);
            line.append(")");
            lines.push(line);
            i = i + 1;
        }
        assert(visible.take(visible.len() as int) =~= visible);
        let ghost shown = texts(lines@);
        let ghost hidden = Seq::new(
            devices@.restricted_devices.len(),
            |i: int| restricted_line(devices@.restricted_devices[i]),
        );
        let mut j: usize = 0;
        assert(shown =~= shown + hidden.take(0));
        while j < devices.restricted_devices.len()
            invariant
                j <= devices.restricted_devices@.len(),
                hidden == Seq::new(
                    devices@.restricted_devices.len(),
                    |k: int| restricted_line(devices@.restricted_devices[k]),
                ),
                texts(lines@) =~= shown + hidden.take(j as int),
            decreases devices.restricted_devices@.len() - j,
        {
            let device = &devices.restricted_devices[j];
            lines.push(
                concat5(
                    "  - ",
                    device.name.as_str(),
                    " (",
                    device.kind.as_str(),
                    ", restricted)",
                ),
            );
            j = j + 1;
        }
        assert(hidden.take(hidden.len() as int) =~= hidden);
    }
    assert(texts(lines@) =~= before + device_lines(opt_view(*devices)));
}

fn push_checks(lines: &mut Vec<String>, checks: &[DoctorCheck])
    ensures
        texts(final(lines)@) == texts(old(lines)@) + check_lines(seq_view(checks@)),
{
    let ghost before = texts(lines@);
    let ghost all = seq_view(checks@);
    lines.push("".to_owned());
    lines.push("API checks:".to_owned());
    if checks.len() == 0 {
        lines.push("  skipped".to_owned());
    } else {
        let ghost head = texts(lines@);
        let ghost rows = Seq::new(all.len(), |i: int| check_line(all[i]));
        let mut i: usize = 0;
        assert(head =~= head + rows.take(0));
        while i < checks.len()
            invariant
                i <= checks@.len(),
                all == seq_view(checks@),
                rows == Seq::new(all.len(), |k: int| check_line(all[k])),
                texts(lines@) =~= head + rows.take(i as int),
            decreases checks@.len() - i,
        {
            let check = &checks[i];
            let state = if check.ok {
                "ok"
            } else {
                "failed"
            };
            let elapsed = u64_text(check.elapsed_ms);
            let mut line = concat5("  ", check.name.as_str(), ": ", state, " (");
            line.append(elapsed.as_str());
            line.append("ms) ");
            line.append(check.message.as_str());
            lines.push(line);
            i = i + 1;
        }
        assert(rows.take(rows.len() as int) =~= rows);
    }
    assert(texts(lines@) =~= before + check_lines(all));
}

fn push_finding(lines: &mut Vec<String>, finding: &DoctorFinding)
    ensures
        texts(final(lines)@) == texts(old(lines)@) + finding_lines(finding@),
{
    let ghost before = texts(lines@);
    lines.push(
        concat4("  [", finding.category.label(), "] ", finding.message.as_str()),
    );
    let ghost head = texts(lines@);
    let ghost rows = Seq::new(
        finding@.remediation.len(),
        |i: int| "      -> "@ + finding@.remediation[i],
    );
    let mut i: usize = 0;
    assert(head =~= head + rows.take(0));
    while i < finding.remediation.len()
        invariant
            i <= finding.remediation@.len(),
            rows == Seq::new(
                finding@.remediation.len(),
                |k: int| "      -> "@ + finding@.remediation[k],
            ),
            texts(lines@) =~= head + rows.take(i as int),
        decreases finding.remediation@.len() - i,
    {
        lines.push(concat2("      -> ", finding.remediation[i].as_str()));
        i = i + 1;
    }
    assert(rows.take(rows.len() as int) =~= rows);
    assert(texts(lines@) =~= before + finding_lines(finding@));
}

fn push_findings(lines: &mut Vec<String>, findings: &[DoctorFinding])
    ensures
        texts(final(lines)@) == texts(old(lines)@) + findings_section(seq_view(findings@)),
{
    let ghost before = texts(lines@);
    let ghost all = seq_view(findings@);
    if findings.len() > 0 {
        lines.push("".to_owned());
        lines.push("Findings:".to_owned());
        let ghost head = texts(lines@);
        let mut i: usize = 0;
        assert(all.take(0) =~= Seq::<FindingModel>::empty());
        assert(head =~= head + all_finding_lines(all.take(0)));
        while i < findings.len()
            invariant
                i <= findings@.len(),
                all == seq_view(findings@),
                texts(lines@) =~= head + all_finding_lines(all.take(i as int)),
            decreases findings@.len() - i,
        {
            proof {
                assert(all.take(i as int + 1).drop_last() =~= all.take(i as int));
                assert(all.take(i as int + 1).last() == findings@[i as int]@);
            }
            push_finding(lines, &findings[i]);
            i = i + 1;
        }
        assert(all.take(all.len() as int) =~= all);
    }
    assert(texts(lines@) =~= before + findings_section(all));
}

fn push_next(lines: &mut Vec<String>, steps: &[String])
    ensures
        texts(final(lines)@) == texts(old(lines)@) + next_section(texts(steps@)),
{
    let ghost before = texts(lines@);
    let ghost all = texts(steps@);
    lines.push("".to_owned());
    lines.push("Next:".to_owned());
    let ghost head = texts(lines@);
    let ghost rows = Seq::new(all.len(), |i: int| "  "@ + all[i]);
    let mut i: usize = 0;
    assert(head =~= head + rows.take(0));
    while i < steps.len()
        invariant
            i <= steps@.len(),
            all == texts(steps@),
            rows == Seq::new(all.len(), |k: int| "  "@ + all[k]),
            texts(lines@) =~= head + rows.take(i as int),
        decreases steps@.len() - i,
    {
        lines.push(concat2("  ", steps[i].as_str()));
        i = i + 1;
    }
    assert(rows.take(rows.len() as int) =~= rows);
    assert(texts(lines@) =~= before + next_section(all));
}

/// A report as a table, line by line.
pub fn report_table(report: &DoctorReport) -> (r: Vec<String>)
    ensures
        texts(r@) == table_lines(report@),
{
    let mut lines: Vec<String> = Vec::new();
    assert(texts(lines@) =~= Seq::<Seq<char>>::empty());
    push_head(&mut lines, report);
    push_system(&mut lines, &report.system);
    push_devices(&mut lines, &report.device_diagnostics);
    push_checks(&mut lines, report.api_checks.as_slice());
    push_findings(&mut lines, report.findings.as_slice());
    push_next(&mut lines, report.recommended_next_steps.as_slice());
    assert(texts(lines@) =~= table_lines(report@));
    lines
}

// ---------------------------------------------------------------------------
// What a report says
// ---------------------------------------------------------------------------

/// A report starts with what was collected: nothing of it is left out, the
/// client id is masked, a redirect that was not set is the default one, and
/// the check of the credentials on disk comes behind the others.
pub proof fn reports_carry_what_was_collected(inputs: ReportInputs, i: int)
    requires
        0 <= i < inputs.api_checks@.len(),
    ensures
        ({
            let report = raw_report(inputs);
            let checks = report.api_checks;
            &&& report.config_path == inputs.config_path@ && report.logs_path == inputs.logs_path@
            &&& report.config_ok <==> inputs.config_error is None
            &&& report.config_error == opt_text(inputs.config_error)
            &&& report.keychain_token == inputs.auth_token@ && report.daemon == inputs.daemon@
            &&& report.device_diagnostics == opt_view(inputs.device_diagnostics)
            &&& report.system == opt_view(inputs.system)
            &&& report.findings.len() == 0 && report.recommended_next_steps.len() == 0
            &&& checks.len() == inputs.api_checks@.len() + 1
            &&& checks[i] == inputs.api_checks@[i]@
            &&& checks.last().name == "auth file"@ && checks.last().ok
            &&& inputs.auth_required ==> checks.last().message == inputs.disk_token_status@
            &&& !inputs.auth_required ==> checks.last().message
                == "skipped: no configured provider requires Spotify OAuth"@
            &&& match inputs.settings {
                Some(settings) => {
                    &&& report.client_secret_present == Some(settings.client_secret_present)
                    &&& settings.client_id is Some ==> report.client_id == Some(
                        masked_client_id(settings.client_id->0@),
                    )
                    &&& settings.client_id is None ==> report.client_id is None
                    &&& settings.redirect_uri is Some ==> report.redirect_uri == Some(
                        settings.redirect_uri->0@,
                    )
                    &&& settings.redirect_uri is None ==> report.redirect_uri == Some(
                        "http://127.0.0.1:8888/callback"@,
                    )
                },
                None => report.client_id is None && report.client_secret_present is None
                    && report.redirect_uri is None,
            }
        }),
{
}

/// Findings of another origin come behind those of the report, and nothing
/// else of it changes.
pub proof fn event_findings_come_last(report: ReportModel, events: Seq<FindingModel>, i: int)
    ensures
        ({
            let after = with_event_findings(report, events);
            &&& after.findings.len() == report.findings.len() + events.len()
            &&& 0 <= i < report.findings.len() ==> after.findings[i] == report.findings[i]
            &&& 0 <= i < events.len() ==> after.findings[report.findings.len() + i] == events[i]
            &&& after.healthy == report.healthy && after.health_class == report.health_class
            &&& after == (ReportModel { findings: after.findings, ..report })
        }),
{
}

/// A value stands in quotes exactly when it holds a comma, a quote or the end
/// of a line, and as it is otherwise.
pub proof fn values_are_quoted_where_they_must_be(s: Seq<char>)
    ensures
        (exists|i: int|
            0 <= i < s.len() && (#[trigger] s[i] == ',' || s[i] == '"' || s[i] == '\n' || s[i]
                == '\r')) ==> csv_field(s).len() >= s.len() + 2 && csv_field(s)[0] == '"'
            && csv_field(s).last() == '"',
        (forall|i: int|
            0 <= i < s.len() ==> #[trigger] s[i] != ',' && s[i] != '"' && s[i] != '\n' && s[i]
                != '\r') ==> csv_field(s) == s,
{
    lemma_doubled_is_no_shorter(s);
    if exists|i: int|
        0 <= i < s.len() && (#[trigger] s[i] == ',' || s[i] == '"' || s[i] == '\n' || s[i]
            == '\r') {
        let i = choose|i: int|
            0 <= i < s.len() && (#[trigger] s[i] == ',' || s[i] == '"' || s[i] == '\n' || s[i]
                == '\r');
        assert(is_csv_special(s[i]));
    }
}

proof fn lemma_doubled_is_no_shorter(s: Seq<char>)
    ensures
        doubled(s).len() >= s.len(),
    decreases s.len(),
{
    if s.len() > 0 {
        lemma_doubled_is_no_shorter(s.drop_last());
    }
}

/// The rows of a report are its header, the credentials, each check in order
/// and, where the desktop was looked at, four on that. A reader finds in the
/// row of a check its name, whether it passed, how long it took and what it
/// said.
pub proof fn rows_hold_the_checks(report: ReportModel, i: int)
    requires
        0 <= i < report.api_checks.len(),
    ensures
        ({
            let rows = csv_lines(report);
            let check = report.api_checks[i];
            let token = report.keychain_token;
            &&& rows.len() == 2 + report.api_checks.len() + if report.system is Some {
                4int
            } else {
                0
            }
            &&& rows[0] == "name,ok,elapsed_ms,message"@
            &&& csv_cells(rows[1]) == seq![
                "auth token"@,
                truth(token.ok),
                decimal(token.elapsed_ms as nat),
                token.message,
            ]
            &&& csv_cells(rows[2 + i]) == seq![
                check.name,
                truth(check.ok),
                decimal(check.elapsed_ms as nat),
                check.message,
            ]
        }),
{
    let check = report.api_checks[i];
    let token = report.keychain_token;
    let rows = csv_lines(report);
    csv_rows_read_back(
        seq!["auth token"@, truth(token.ok), decimal(token.elapsed_ms as nat), token.message],
    );
    csv_rows_read_back(
        seq![check.name, truth(check.ok), decimal(check.elapsed_ms as nat), check.message],
    );
    assert(rows[1] == token_row(token));
    assert(rows[2 + i] == check_row(check));
}

/// The last four rows tell of the desktop: whether each of its parts is on,
/// and what is set for it.
pub proof fn rows_hold_the_desktop(report: ReportModel)
    requires
        report.system is Some,
    ensures
        ({
            let rows = csv_lines(report);
            let n = rows.len() - 4;
            let system = report.system->0;
            &&& rows.len() == report.api_checks.len() + 6
            &&& csv_cells(rows[n]) == seq![
                "media controls"@,
                truth(system.media_controls_enabled),
                "0"@,
                match system.media_controls_bus_name {
                    Some(name) => name,
                    None => "-"@,
                },
            ]
            &&& csv_cells(rows[n + 1]) == seq![
                "shell hook"@,
                truth(system.hooks_enabled),
                decimal(
                    match system.hook_timeout_ms {
                        Some(ms) => ms as nat,
                        None => 0,
                    },
                ),
                match system.hook_command {
                    Some(command) => command,
                    None => "-"@,
                },
            ]
            &&& csv_cells(rows[n + 2]) == seq![
                "notifications"@,
                truth(system.notifications_enabled),
                "0"@,
                "-"@,
            ]
            &&& csv_cells(rows[n + 3]) == seq![
                "discord rpc"@,
                truth(system.discord_enabled),
                "0"@,
                match system.discord_application_id {
                    Some(id) => id,
                    None => "-"@,
                },
            ]
        }),
{
    let rows = csv_lines(report);
    let n = rows.len() - 4;
    let system = report.system->0;
    let desktop = system_rows(system);
    assert(rows[n] == desktop[0] && rows[n + 1] == desktop[1]);
    assert(rows[n + 2] == desktop[2] && rows[n + 3] == desktop[3]);
    csv_rows_read_back(
        seq![
            "media controls"@,
            truth(system.media_controls_enabled),
            "0"@,
            or_dash(system.media_controls_bus_name),
        ],
    );
    csv_rows_read_back(
        seq![
            "shell hook"@,
            truth(system.hooks_enabled),
            decimal(ms_or_zero(system.hook_timeout_ms)),
            or_dash(system.hook_command),
        ],
    );
    csv_rows_read_back(seq!["notifications"@, truth(system.notifications_enabled), "0"@, "-"@]);
    csv_rows_read_back(
        seq![
            "discord rpc"@,
            truth(system.discord_enabled),
            "0"@,
            or_dash(system.discord_application_id),
        ],
    );
}

/// A table starts with the health, the daemon and its socket.
pub proof fn tables_start_with_health_and_daemon(report: ReportModel)
    ensures
        ({
            let lines = table_lines(report);
            let daemon = report.daemon;
            &&& lines.len() >= 10
            &&& lines[0] == "Health:       "@ + report.health_class.name()
            &&& lines[1] == "Healthy:      "@ + truth(report.healthy)
            &&& daemon.running && daemon.daemon_pid is Some ==> lines[2]
                == "Daemon:       "@ + "running"@ + (" (pid "@ + decimal(
                daemon.daemon_pid->0 as nat,
            ) + ")"@)
            &&& !daemon.running && daemon.daemon_pid is None ==> lines[2] == "Daemon:       "@
                + "down"@ + ""@
            &&& daemon.socket_reachable ==> lines[3] == "Socket:       "@ + "reachable"@
                + " (exists: "@ + truth(daemon.socket_exists) + ", stale: "@ + truth(
                daemon.stale_socket,
            ) + ")"@
            &&& !daemon.socket_reachable ==> lines[3] == "Socket:       "@ + "unreachable"@
                + " (exists: "@ + truth(daemon.socket_exists) + ", stale: "@ + truth(
                daemon.stale_socket,
            ) + ")"@
        }),
{
    let head = daemon_lines(report);
    let lines = table_lines(report);
    assert(lines[0] == head[0] && lines[1] == head[1] && lines[2] == head[2] && lines[3]
        == head[3]);
}

/// Then come the settings: their path, an error where they have one, the logs,
/// the client and the credentials.
pub proof fn tables_go_on_with_the_settings(report: ReportModel)
    ensures
        ({
            let lines = table_lines(report);
            let n = if report.config_error is Some {
                6int
            } else {
                5
            };
            let token = report.keychain_token;
            &&& lines[4] == "Config:       "@ + report.config_path + " (ok: "@ + truth(
                report.config_ok,
            ) + ")"@
            &&& report.config_error is Some ==> lines[5] == "Config error: "@
                + report.config_error->0
            &&& lines[n] == "Logs:         "@ + report.logs_path
            &&& report.client_id is Some ==> lines[n + 1] == "Client ID:    "@ + report.client_id->0
            &&& report.client_id is None ==> lines[n + 1] == "Client ID:    "@ + "-"@
            &&& report.client_secret_present == Some(true) ==> lines[n + 2] == "Client secret: "@
                + "present"@
            &&& report.client_secret_present == Some(false) ==> lines[n + 2] == "Client secret: "@
                + "missing"@
            &&& report.client_secret_present is None ==> lines[n + 2] == "Client secret: "@ + "-"@
            &&& report.redirect_uri is Some ==> lines[n + 3] == "Redirect URI: "@
                + report.redirect_uri->0
            &&& report.redirect_uri is None ==> lines[n + 3] == "Redirect URI: "@ + "-"@
            &&& lines[n + 4] == "Auth token:   "@ + token.message + " ("@ + decimal(
                token.elapsed_ms as nat,
            ) + "ms)"@
        }),
{
    let lines = table_lines(report);
    let part = settings_lines(report);
    let n = if report.config_error is Some {
        6int
    } else {
        5
    };
    assert(part.len() == n + 1);
    assert forall|k: int| 0 <= k < part.len() implies #[trigger] lines[4 + k] == part[k] by {
        assert(head_lines(report)[4 + k] == part[k]);
    }
    assert(lines[4 + 0int] == part[0]);
    assert(lines[4 + 1int] == part[1]);
    assert(lines[4 + (n - 4)] == part[n - 4]);
    assert(lines[4 + (n - 3)] == part[n - 3]);
    assert(lines[4 + (n - 2)] == part[n - 2]);
    assert(lines[4 + (n - 1)] == part[n - 1]);
    assert(lines[4 + n] == part[n]);
}

/// The lines of the desktop say of each of its parts whether it is on, and
/// what is set for it.
pub proof fn tables_tell_of_the_desktop(system: SystemModel)
    ensures
        system_lines(None).len() == 0,
        ({
            let lines = system_lines(Some(system));
            let hook = match system.hook_timeout_ms {
                Some(ms) => ms as nat,
                None => 0,
            };
            &&& lines.len() == 4
            &&& lines[0] == "Media keys:   "@ + (if system.media_controls_enabled {
                "yes"@
            } else {
                "no"@
            }) + (if system.media_controls_bus_name is Some {
                " (bus "@ + system.media_controls_bus_name->0 + ")"@
            } else {
                ""@
            })
            &&& lines[1] == "Hook:         "@ + (if system.hooks_enabled {
                "yes"@
            } else {
                "no"@
            }) + (if system.hook_command is Some {
                " ("@ + system.hook_command->0 + ", "@ + decimal(hook) + "ms)"@
            } else {
                ""@
            })
            &&& lines[2] == "Notifications: "@ + (if system.notifications_enabled {
                "yes"@
            } else {
                "no"@
            })
            &&& lines[3] == "Discord RPC:  "@ + (if system.discord_enabled {
                "yes"@
            } else {
                "no"@
            }) + (if system.discord_application_id is Some {
                " (app "@ + system.discord_application_id->0 + ")"@
            } else {
                ""@
            })
        }),
{
}

/// The lines of the devices tell the preferred and the active one, count the
/// restricted ones, and list every device: those that can be controlled
/// first, then the restricted ones.
pub proof fn tables_list_the_devices(devices: DevicesModel, i: int)
    ensures
        device_lines(None).len() == 0,
        ({
            let lines = device_lines(Some(devices));
            let visible = devices.visible_unrestricted_devices;
            let restricted = devices.restricted_devices;
            &&& lines.len() == 5 + visible.len() + restricted.len()
            &&& devices.preferred_configured is Some ==> lines[0] == "Preferred device configured: "@
                + devices.preferred_configured->0
            &&& devices.preferred_configured is None ==> lines[0] == "Preferred device configured: "@
                + "not configured"@
            &&& lines[1] == "Preferred device visible:    "@ + (if devices.preferred_visible {
                "yes"@
            } else {
                "no"@
            })
            &&& devices.active_device is Some ==> lines[2] == "Active device:               "@
                + devices.active_device->0.name
            &&& devices.active_device is None ==> lines[2] == "Active device:               "@
                + "none"@
            &&& lines[3] == "Restricted devices:          "@ + decimal(restricted.len())
            &&& lines[4] == "Visible devices:"@
            &&& 0 <= i < visible.len() ==> lines[5 + i] == "  - "@ + visible[i].name + " ("@
                + visible[i].kind + ", "@ + (if visible[i].active {
                "active"@
            } else {
                "idle"@
            }) + ")"@
            &&& 0 <= i < restricted.len() ==> lines[5 + visible.len() + i] == "  - "@
                + restricted[i].name + " ("@ + restricted[i].kind + ", restricted)"@
        }),
{
}

/// Every check has its line, in order, with whether it passed, how long it
/// took and what it said; where there are none that is said.
pub proof fn tables_list_the_checks(checks: Seq<CheckModel>, i: int)
    ensures
        ({
            let lines = check_lines(checks);
            &&& lines[0] == ""@ && lines[1] == "API checks:"@
            &&& checks.len() == 0 ==> lines.len() == 3 && lines[2] == "  skipped"@
            &&& checks.len() > 0 ==> lines.len() == 2 + checks.len()
            &&& 0 <= i < checks.len() && checks[i].ok ==> lines[2 + i] == "  "@ + checks[i].name
                + ": "@ + "ok"@ + " ("@ + decimal(checks[i].elapsed_ms as nat) + "ms) "@
                + checks[i].message
            &&& 0 <= i < checks.len() && !checks[i].ok ==> lines[2 + i] == "  "@ + checks[i].name
                + ": "@ + "failed"@ + " ("@ + decimal(checks[i].elapsed_ms as nat) + "ms) "@
                + checks[i].message
        }),
{
}

/// Every finding is shown, in order: one line with its category and message,
/// and one for each thing to do about it. `at` gives the line that each starts
/// at.
pub proof fn tables_list_the_findings(findings: Seq<FindingModel>) -> (at: Seq<int>)
    ensures
        at.len() == findings.len(),
        at.len() > 0 ==> at[0] == 0,
        forall|i: int|
            0 <= i < at.len() ==> {
                let f = findings[i];
                let end = #[trigger] at[i] + 1 + f.remediation.len();
                &&& 0 <= at[i] && end <= all_finding_lines(findings).len()
                &&& i + 1 < at.len() ==> at[i + 1] == end
                &&& i + 1 == at.len() ==> all_finding_lines(findings).len() == end
                &&& all_finding_lines(findings)[at[i]] == "  ["@ + f.category.name() + "] "@
                    + f.message
                &&& forall|k: int|
                    0 <= k < f.remediation.len() ==> all_finding_lines(findings)[at[i] + 1 + k]
                        == "      -> "@ + #[trigger] f.remediation[k]
            },
    decreases findings.len(),
{
    if findings.len() == 0 {
        Seq::empty()
    } else {
        let init = findings.drop_last();
        let before = tables_list_the_findings(init);
        let head = all_finding_lines(init);
        let all = all_finding_lines(findings);
        let at = before.push(head.len() as int);
        let last = finding_lines(findings.last());
        assert(all == head + last);
        assert forall|i: int| 0 <= i < at.len() implies {
            let f = findings[i];
            let end = #[trigger] at[i] + 1 + f.remediation.len();
            &&& 0 <= at[i] && end <= all.len()
            &&& i + 1 < at.len() ==> at[i + 1] == end
            &&& i + 1 == at.len() ==> all.len() == end
            &&& all[at[i]] == "  ["@ + f.category.name() + "] "@ + f.message
            &&& forall|k: int|
                0 <= k < f.remediation.len() ==> all[at[i] + 1 + k] == "      -> "@
                    + #[trigger] f.remediation[k]
        } by {
            let f = findings[i];
            if i < before.len() {
                assert(at[i] == before[i]);
                assert(init[i] == f);
                assert(all[at[i]] == head[at[i]]);
                if i + 1 < before.len() {
                    assert(at[i + 1] == before[i + 1]);
                }
                assert forall|k: int| 0 <= k < f.remediation.len() implies all[at[i] + 1 + k]
                    == "      -> "@ + #[trigger] f.remediation[k] by {
                    assert(head[before[i] + 1 + k] == "      -> "@ + init[i].remediation[k]);
                }
            } else {
                assert(all[at[i]] == last[0]);
                assert forall|k: int| 0 <= k < f.remediation.len() implies all[at[i] + 1 + k]
                    == "      -> "@ + #[trigger] f.remediation[k] by {
                    assert(all[head.len() + (1 + k)] == last[1 + k]);
                }
            }
        }
        at
    }
}

/// A table ends with what to do next, step by step, and before that shows what
/// was found, where anything was, behind the checks.
pub proof fn tables_end_with_the_next_steps(report: ReportModel, i: int)
    ensures
        ({
            let lines = table_lines(report);
            let steps = report.recommended_next_steps;
            let n = lines.len() - steps.len();
            &&& lines[n - 2] == ""@ && lines[n - 1] == "Next:"@
            &&& 0 <= i < steps.len() ==> lines[n + i] == "  "@ + steps[i]
        }),
        ({
            let lines = table_lines(report);
            let found = all_finding_lines(report.findings);
            let end = lines.len() - report.recommended_next_steps.len() - 2;
            let checks = check_lines(report.api_checks);
            &&& report.findings.len() > 0 ==> {
                let start = end - found.len();
                &&& lines.subrange(start, end) == found
                &&& lines[start - 2] == ""@ && lines[start - 1] == "Findings:"@
                &&& lines.subrange(start - 2 - checks.len(), start - 2) == checks
            }
            &&& report.findings.len() == 0 ==> lines.subrange(end - checks.len(), end) == checks
        }),
{
    let lines = table_lines(report);
    let next = next_section(report.recommended_next_steps);
    let found = findings_section(report.findings);
    let checks = check_lines(report.api_checks);
    let top = head_lines(report) + system_lines(report.system) + device_lines(
        report.device_diagnostics,
    );
    assert(lines =~= top + checks + found + next);
    let end = lines.len() - next.len();
    assert(lines.subrange(end - found.len(), end) =~= found);
    assert(lines.subrange(end - found.len() - checks.len(), end - found.len()) =~= checks);
    assert(next[0] == lines[end] && next[1] == lines[end + 1]);
    if 0 <= i < report.recommended_next_steps.len() {
        assert(lines[end + (2 + i)] == next[2 + i]);
    }
    if report.findings.len() > 0 {
        let inner = all_finding_lines(report.findings);
        let start = end - inner.len();
        assert(found[0] == lines[start - 2] && found[1] == lines[start - 1]);
        assert(lines.subrange(start, end) =~= inner) by {
            assert forall|k: int| 0 <= k < inner.len() implies lines[start + k] == inner[k] by {
                assert(found[2 + k] == inner[k]);
            }
        }
    }
}

/// Between the settings and the checks a table tells of the desktop and of the
/// devices, as far as they were looked at.
pub proof fn tables_tell_of_desktop_and_devices(report: ReportModel)
    ensures
        ({
            let lines = table_lines(report);
            let desktop = system_lines(report.system);
            let devices = device_lines(report.device_diagnostics);
            let start = if report.config_error is Some {
                11int
            } else {
                10
            };
            let middle = start + desktop.len();
            &&& lines.subrange(start, middle) == desktop
            &&& lines.subrange(middle, middle + devices.len()) == devices
        }),
{
    let lines = table_lines(report);
    let desktop = system_lines(report.system);
    let devices = device_lines(report.device_diagnostics);
    let start = head_lines(report).len() as int;
    assert(lines.subrange(start, start + desktop.len()) =~= desktop);
    assert(lines.subrange(start + desktop.len(), start + desktop.len() + devices.len())
        =~= devices);
}

/// Reports are put together and written as is told of them.
pub proof fn reports_are_written_as_told()
    ensures
        forall|
            inputs: ReportInputs,
            first_party_only: bool,
            event_findings: Vec<DoctorFinding>,
            answer: DoctorReport,
        |
            #[trigger] call_ensures(
                assemble_report,
                (inputs, first_party_only, event_findings),
                answer,
            ) ==> {
                &&& ({
                    let raw = raw_report(inputs);
                    answer@ == with_event_findings(
                        finalized(raw, all_findings(raw, first_party_only, rejected_host_of(raw))),
                        seq_view(event_findings@),
                    )
                })
            },
        forall|value: &str, answer: String|
            #[trigger] call_ensures(csv_value, (value,), answer) ==> {
                &&& answer@ == csv_field(value@)
            },
        forall|values: &[&str], answer: String|
            #[trigger] call_ensures(csv_row, (values,), answer) ==> {
                &&& answer@ == csv_line(Seq::new(values@.len(), |i: int| values@[i]@))
            },
        forall|report: &DoctorReport, answer: Vec<String>|
            #[trigger] call_ensures(report_csv, (report,), answer) ==> {
                &&& texts(answer@) == csv_lines(report@)
            },
        forall|report: &DoctorReport, answer: Vec<String>|
            #[trigger] call_ensures(report_table, (report,), answer) ==> {
                &&& texts(answer@) == table_lines(report@)
            },
{
}

} // verus!
