//! Sign-in sessions: their life from start to end, and the table of those
//! that are under way.
//!
//! A session is active until it is cancelled, fails, expires, or its worker
//! claims the commit. From the claim on the worker owns it: nothing but the
//! end of the commit changes it any more. That keeps a cancelled session from
//! ever having stored a credential.

use vstd::prelude::*;
use vstd::string::*;

use crate::provider::{ProviderError, ProviderErrorModel, ProviderId};
use crate::text::{
    concat2, concat3, concat5, copy_opt, lemma_seq_view_push, lemma_texts_push, opt_str, opt_text,
    opt_view, same_text, seq_view, texts, words, words_of,
};

verus! {

broadcast use {lemma_seq_view_push, lemma_texts_push};

/// How long a session may take, and how long its end is remembered.
pub const AUTH_SESSION_TTL_MS: i64 = 300_000;

/// Where the first-party sign-in comes back to.
pub const FIRST_PARTY_REDIRECT_URI: &'static str = "http://127.0.0.1:8898/login";

// ---------------------------------------------------------------------------
// States
// ---------------------------------------------------------------------------

/// Who may still change a session.
#[derive(Clone, Copy, Debug, PartialEq, Eq, Structural)]
pub enum AuthLifecycle {
    Active,
    Committing,
    Terminal,
}

/// What a session shows.
#[derive(Debug, PartialEq, Eq)]
pub enum AuthSessionState {
    Starting,
    AwaitingUser {
        authorization_url: String,
        redirect_uri: String,
        browser_error: Option<String>,
    },
    Waiting {
        authorization_url: String,
        redirect_uri: String,
        browser_error: Option<String>,
    },
    Authorized,
    Failed { message: String },
    Cancelled,
}

/// The state of a session as plain values.
pub enum StateModel {
    Starting,
    AwaitingUser {
        authorization_url: Seq<char>,
        redirect_uri: Seq<char>,
        browser_error: Option<Seq<char>>,
    },
    Waiting {
        authorization_url: Seq<char>,
        redirect_uri: Seq<char>,
        browser_error: Option<Seq<char>>,
    },
    Authorized,
    Failed { message: Seq<char> },
    Cancelled,
}

impl View for AuthSessionState {
    type V = StateModel;

    open spec fn view(&self) -> StateModel {
        match *self {
            AuthSessionState::Starting => StateModel::Starting,
            AuthSessionState::AwaitingUser { authorization_url, redirect_uri, browser_error }
                => StateModel::AwaitingUser {
                authorization_url: authorization_url@,
                redirect_uri: redirect_uri@,
                browser_error: opt_text(browser_error),
            },
            AuthSessionState::Waiting { authorization_url, redirect_uri, browser_error }
                => StateModel::Waiting {
                authorization_url: authorization_url@,
                redirect_uri: redirect_uri@,
                browser_error: opt_text(browser_error),
            },
            AuthSessionState::Authorized => StateModel::Authorized,
            AuthSessionState::Failed { message } => StateModel::Failed { message: message@ },
            AuthSessionState::Cancelled => StateModel::Cancelled,
        }
    }
}

impl StateModel {
    /// Whether a session of this state is over.
    pub open spec fn terminal(self) -> bool {
        self is Authorized || self is Failed || self is Cancelled
    }
}

impl Clone for AuthSessionState {
    fn clone(&self) -> (r: Self)
        ensures
            r@ == self@,
    {
        match self {
            AuthSessionState::Starting => AuthSessionState::Starting,
            AuthSessionState::AwaitingUser { authorization_url, redirect_uri, browser_error }
                => AuthSessionState::AwaitingUser {
                authorization_url: authorization_url.clone(),
                redirect_uri: redirect_uri.clone(),
                browser_error: copy_opt(browser_error),
            },
            AuthSessionState::Waiting { authorization_url, redirect_uri, browser_error }
                => AuthSessionState::Waiting {
                authorization_url: authorization_url.clone(),
                redirect_uri: redirect_uri.clone(),
                browser_error: copy_opt(browser_error),
            },
            AuthSessionState::Authorized => AuthSessionState::Authorized,
            AuthSessionState::Failed { message } => AuthSessionState::Failed {
                message: message.clone(),
            },
            AuthSessionState::Cancelled => AuthSessionState::Cancelled,
        }
    }
}

impl AuthSessionState {
    /// Whether a session of this state is over.
    pub fn is_terminal(&self) -> (r: bool)
        ensures
            r == self@.terminal(),
    {
        match self {
            AuthSessionState::Authorized => true,
            AuthSessionState::Failed { .. } => true,
            AuthSessionState::Cancelled => true,
            _ => false,
        }
    }
}

/// What a sign-in reports on its way.
#[derive(Clone, Debug, PartialEq, Eq)]
pub enum LoginProgress {
    OpeningBrowser { auth_url: String, redirect_uri: String },
    BrowserLaunchFailed { auth_url: String, redirect_uri: String, error: String },
    WaitingForCallback,
    Saved,
}

/// The state that a report leads to from a state.
pub open spec fn state_after(state: StateModel, event: LoginProgress) -> StateModel {
    match event {
        LoginProgress::OpeningBrowser { auth_url, redirect_uri } => StateModel::AwaitingUser {
            authorization_url: auth_url@,
            redirect_uri: redirect_uri@,
            browser_error: None,
        },
        LoginProgress::BrowserLaunchFailed { auth_url, redirect_uri, error }
            => StateModel::AwaitingUser {
            authorization_url: auth_url@,
            redirect_uri: redirect_uri@,
            browser_error: Some(error@),
        },
        LoginProgress::WaitingForCallback => match state {
            StateModel::AwaitingUser { authorization_url, redirect_uri, browser_error }
                => StateModel::Waiting { authorization_url, redirect_uri, browser_error },
            _ => state,
        },
        LoginProgress::Saved => state,
    }
}

// ---------------------------------------------------------------------------
// A session
// ---------------------------------------------------------------------------

/// A sign-in session.
#[derive(Debug, PartialEq, Eq)]
pub struct AuthSession {
    pub session_id: String,
    pub provider: ProviderId,
    pub method: String,
    pub state: AuthSessionState,
    pub created_at_ms: i64,
    pub expires_at_ms: i64,
    pub lifecycle: AuthLifecycle,
}

/// A session as plain values.
pub struct SessionModel {
    pub session_id: Seq<char>,
    pub provider: Seq<char>,
    pub method: Seq<char>,
    pub state: StateModel,
    pub created_at_ms: i64,
    pub expires_at_ms: i64,
    pub lifecycle: AuthLifecycle,
}

impl View for AuthSession {
    type V = SessionModel;

    open spec fn view(&self) -> SessionModel {
        SessionModel {
            session_id: self.session_id@,
            provider: self.provider@,
            method: self.method@,
            state: self.state@,
            created_at_ms: self.created_at_ms,
            expires_at_ms: self.expires_at_ms,
            lifecycle: self.lifecycle,
        }
    }
}

impl Clone for AuthSession {
    fn clone(&self) -> (r: Self)
        ensures
            r@ == self@,
    {
        AuthSession {
            session_id: self.session_id.clone(),
            provider: self.provider.clone(),
            method: self.method.clone(),
            state: self.state.clone(),
            created_at_ms: self.created_at_ms,
            expires_at_ms: self.expires_at_ms,
            lifecycle: self.lifecycle,
        }
    }
}

/// A time moved on by the lifetime of a session, as far as the type goes.
pub open spec fn expiry(now_ms: i64) -> i64 {
    if now_ms + AUTH_SESSION_TTL_MS > i64::MAX {
        i64::MAX
    } else {
        (now_ms + AUTH_SESSION_TTL_MS) as i64
    }
}

/// When a session that ends or starts now is forgotten or expires.
pub fn terminal_expiry_ms(now_ms: i64) -> (r: i64)
    ensures
        r == expiry(now_ms),
{
    if now_ms > i64::MAX - AUTH_SESSION_TTL_MS {
        i64::MAX
    } else {
        now_ms + AUTH_SESSION_TTL_MS
    }
}

impl SessionModel {
    /// Whether the session is over exactly when nobody may change it.
    pub open spec fn consistent(self) -> bool {
        self.lifecycle == AuthLifecycle::Terminal <==> self.state.terminal()
    }

    /// Whether the session is still under way.
    pub open spec fn unfinished(self) -> bool {
        self.lifecycle != AuthLifecycle::Terminal
    }

    /// The session with another state, where it is still active.
    pub open spec fn with_active_state(self, state: StateModel) -> SessionModel {
        if self.lifecycle == AuthLifecycle::Active {
            SessionModel { state, ..self }
        } else {
            self
        }
    }

    /// The session after a report of its sign-in.
    pub open spec fn progressed(self, event: LoginProgress) -> SessionModel {
        self.with_active_state(state_after(self.state, event))
    }

    /// The session after its worker claimed the commit.
    pub open spec fn claimed(self) -> SessionModel {
        if self.lifecycle == AuthLifecycle::Active {
            SessionModel { lifecycle: AuthLifecycle::Committing, ..self }
        } else {
            self
        }
    }

    /// The session after an end that only an active one can take.
    pub open spec fn ended(self, state: StateModel, now_ms: i64) -> SessionModel {
        if self.lifecycle == AuthLifecycle::Active {
            SessionModel {
                lifecycle: AuthLifecycle::Terminal,
                state,
                expires_at_ms: expiry(now_ms),
                ..self
            }
        } else {
            self
        }
    }

    /// The session after the end of its commit.
    pub open spec fn committed(self, state: StateModel, now_ms: i64) -> SessionModel {
        if self.lifecycle == AuthLifecycle::Committing {
            SessionModel {
                lifecycle: AuthLifecycle::Terminal,
                state,
                expires_at_ms: expiry(now_ms),
                ..self
            }
        } else {
            self
        }
    }

    /// Whether the session's time is up while it is still active.
    pub open spec fn expires(self, now_ms: i64) -> bool {
        now_ms > self.expires_at_ms && !self.state.terminal() && self.lifecycle
            == AuthLifecycle::Active
    }

    /// The session after a look at the clock.
    pub open spec fn aged(self, now_ms: i64) -> SessionModel {
        if self.expires(now_ms) {
            self.ended(StateModel::Failed { message: "authentication session expired"@ }, now_ms)
        } else {
            self
        }
    }

    /// Whether the end of the session may be forgotten.
    pub open spec fn forgotten(self, now_ms: i64) -> bool {
        self.state.terminal() && now_ms > self.expires_at_ms
    }
}

/// A session that starts now.
pub open spec fn fresh_session(
    session_id: Seq<char>,
    provider: Seq<char>,
    method: Seq<char>,
    state: StateModel,
    now_ms: i64,
) -> SessionModel {
    SessionModel {
        session_id,
        provider,
        method,
        state,
        created_at_ms: now_ms,
        expires_at_ms: expiry(now_ms),
        lifecycle: if state.terminal() {
            AuthLifecycle::Terminal
        } else {
            AuthLifecycle::Active
        },
    }
}

/// A session that starts now in the given state.
pub fn new_session(
    session_id: &str,
    provider: ProviderId,
    method: &str,
    state: AuthSessionState,
    now_ms: i64,
) -> (r: AuthSession)
    ensures
        r@ == fresh_session(session_id@, provider@, method@, state@, now_ms),
{
    let lifecycle = if state.is_terminal() {
        AuthLifecycle::Terminal
    } else {
        AuthLifecycle::Active
    };
    AuthSession {
        session_id: session_id.to_owned(),
        provider,
        method: method.to_owned(),
        state,
        created_at_ms: now_ms,
        expires_at_ms: terminal_expiry_ms(now_ms),
        lifecycle,
    }
}

impl AuthSession {
    /// Shows another state, as long as the session is active.
    pub fn set_active_state(&mut self, state: AuthSessionState)
        ensures
            final(self)@ == old(self)@.with_active_state(state@),
    {
        if self.lifecycle == AuthLifecycle::Active {
            self.state = state;
        }
    }

    /// Takes in a report of the sign-in.
    pub fn apply_progress(&mut self, event: LoginProgress)
        ensures
            final(self)@ == old(self)@.progressed(event),
    {
        match event {
            LoginProgress::OpeningBrowser { auth_url, redirect_uri } => {
                self.set_active_state(
                    AuthSessionState::AwaitingUser {
                        authorization_url: auth_url,
                        redirect_uri,
                        browser_error: None,
                    },
                );
            },
            LoginProgress::BrowserLaunchFailed { auth_url, redirect_uri, error } => {
                self.set_active_state(
                    AuthSessionState::AwaitingUser {
                        authorization_url: auth_url,
                        redirect_uri,
                        browser_error: Some(error),
                    },
                );
            },
            LoginProgress::WaitingForCallback => {
                let current = self.state.clone();
                if let AuthSessionState::AwaitingUser {
                    authorization_url,
                    redirect_uri,
                    browser_error,
                } = current {
                    self.set_active_state(
                        AuthSessionState::Waiting {
                            authorization_url,
                            redirect_uri,
                            browser_error,
                        },
                    );
                }
            },
            LoginProgress::Saved => {},
        }
    }

    /// Claims the commit; says whether the session was there for it.
    pub fn claim_commit(&mut self) -> (r: bool)
        ensures
            r == (old(self)@.lifecycle == AuthLifecycle::Active),
            final(self)@ == old(self)@.claimed(),
    {
        if self.lifecycle == AuthLifecycle::Active {
            self.lifecycle = AuthLifecycle::Committing;
            true
        } else {
            false
        }
    }

    fn write_terminal_state(&mut self, state: AuthSessionState, now_ms: i64)
        requires
            state@.terminal(),
        ensures
            final(self)@ == (SessionModel {
                lifecycle: AuthLifecycle::Terminal,
                state: state@,
                expires_at_ms: expiry(now_ms),
                ..old(self)@
            }),
    {
        self.lifecycle = AuthLifecycle::Terminal;
        self.expires_at_ms = terminal_expiry_ms(now_ms);
        self.state = state;
    }

    /// Ends an active session; says whether it was one.
    pub fn transition_active_to_terminal(&mut self, state: AuthSessionState, now_ms: i64) -> (r:
        bool)
        requires
            state@.terminal(),
        ensures
            r == (old(self)@.lifecycle == AuthLifecycle::Active),
            final(self)@ == old(self)@.ended(state@, now_ms),
    {
        if self.lifecycle != AuthLifecycle::Active {
            return false;
        }
        self.write_terminal_state(state, now_ms);
        true
    }

    /// Ends a session whose commit was claimed.
    pub fn finish_commit(&mut self, state: AuthSessionState, now_ms: i64)
        requires
            state@.terminal(),
        ensures
            final(self)@ == old(self)@.committed(state@, now_ms),
    {
        if self.lifecycle == AuthLifecycle::Committing {
            self.write_terminal_state(state, now_ms);
        }
    }

    /// Fails an active session whose time is up; says whether it did, so that
    /// the caller stops the sign-in.
    pub fn expire_if_needed(&mut self, now_ms: i64) -> (r: bool)
        ensures
            r == old(self)@.expires(now_ms),
            final(self)@ == old(self)@.aged(now_ms),
    {
        if now_ms > self.expires_at_ms && !self.state.is_terminal() {
            self.transition_active_to_terminal(
                AuthSessionState::Failed { message: "authentication session expired".to_owned() },
                now_ms,
            )
        } else {
            false
        }
    }
}

// ---------------------------------------------------------------------------
// The end of a commit
// ---------------------------------------------------------------------------

/// How storing a credential, and taking it over afterwards, went.
#[derive(Clone, Debug, PartialEq, Eq)]
pub enum CommitReport {
    /// Stored and taken over.
    Reloaded,
    /// Stored, but not taken over.
    ReloadFailed { message: String },
    /// Not stored.
    SaveFailed { message: String },
    /// The task that stores did not finish.
    TaskFailed { error: String },
}

/// The state that a commit ends in.
pub open spec fn state_of_commit(report: CommitReport) -> StateModel {
    match report {
        CommitReport::Reloaded => StateModel::Authorized,
        CommitReport::ReloadFailed { message } => StateModel::Failed { message: message@ },
        CommitReport::SaveFailed { message } => StateModel::Failed { message: message@ },
        CommitReport::TaskFailed { error } => StateModel::Failed {
            message: "auth persistence task failed: "@ + error@,
        },
    }
}

/// The state that a commit ends in.
pub fn commit_state(report: CommitReport) -> (r: AuthSessionState)
    ensures
        r@ == state_of_commit(report),
        r@.terminal(),
{
    match report {
        CommitReport::Reloaded => AuthSessionState::Authorized,
        CommitReport::ReloadFailed { message } => AuthSessionState::Failed { message },
        CommitReport::SaveFailed { message } => AuthSessionState::Failed { message },
        CommitReport::TaskFailed { error } => AuthSessionState::Failed {
            message: concat2("auth persistence task failed: ", error.as_str()),
        },
    }
}

// ---------------------------------------------------------------------------
// Methods
// ---------------------------------------------------------------------------

/// How a provider signs in.
#[derive(Clone, Copy, Debug, PartialEq, Eq, Structural)]
pub enum AuthStrategy {
    NoAuth,
    SpotifyOauth,
}

/// Whose application a sign-in goes through.
#[derive(Clone, Copy, Debug, PartialEq, Eq, Structural)]
pub enum AuthMethod {
    DevApp,
    FirstParty,
}

impl AuthMethod {
    pub open spec fn name(self) -> Seq<char> {
        match self {
            AuthMethod::DevApp => "dev_app"@,
            AuthMethod::FirstParty => "first_party"@,
        }
    }

    pub fn label(self) -> (r: &'static str)
        ensures
            r@ == self.name(),
    {
        match self {
            AuthMethod::DevApp => "dev_app",
            AuthMethod::FirstParty => "first_party",
        }
    }
}

/// The method to sign in with, or why there is none. A first-party sign-in
/// is for builds that play themselves.
pub open spec fn resolved_method(
    requested: Option<Seq<char>>,
    preferred: AuthMethod,
    embedded_playback: bool,
) -> Result<AuthMethod, ProviderErrorModel> {
    let first_party = if embedded_playback {
        Ok(AuthMethod::FirstParty)
    } else {
        Err(
            ProviderErrorModel::Unsupported {
                operation: "first_party authentication requires embedded playback"@,
            },
        )
    };
    match requested {
        Some(name) => if name == "dev_app"@ || name == "dev-app"@ {
            Ok(AuthMethod::DevApp)
        } else if name == "first_party"@ || name == "first-party"@ {
            first_party
        } else {
            Err(
                ProviderErrorModel::InvalidInput {
                    field: "method"@,
                    message: "unsupported Spotify auth method `"@ + name + "`"@,
                },
            )
        },
        None => match preferred {
            AuthMethod::DevApp => Ok(AuthMethod::DevApp),
            AuthMethod::FirstParty => first_party,
        },
    }
}

/// The view of a method that was found, or of the error.
pub open spec fn method_view(r: Result<AuthMethod, ProviderError>) -> Result<
    AuthMethod,
    ProviderErrorModel,
> {
    match r {
        Ok(method) => Ok(method),
        Err(error) => Err(error@),
    }
}

fn first_party_method(embedded_playback: bool) -> (r: Result<AuthMethod, ProviderError>)
    ensures
        method_view(r) == if embedded_playback {
            Ok(AuthMethod::FirstParty)
        } else {
            Err(
                ProviderErrorModel::Unsupported {
                    operation: "first_party authentication requires embedded playback"@,
                },
            )
        },
{
    if embedded_playback {
        Ok(AuthMethod::FirstParty)
    } else {
        Err(ProviderError::unsupported("first_party authentication requires embedded playback"))
    }
}

/// The method to sign in with.
pub fn resolve_method(
    requested: Option<&str>,
    preferred: AuthMethod,
    embedded_playback: bool,
) -> (r: Result<AuthMethod, ProviderError>)
    ensures
        method_view(r) == resolved_method(opt_str(requested), preferred, embedded_playback),
{
    match requested {
        Some(name) => {
            if same_text(name, "dev_app") || same_text(name, "dev-app") {
                Ok(AuthMethod::DevApp)
            } else if same_text(name, "first_party") || same_text(name, "first-party") {
                first_party_method(embedded_playback)
            } else {
                let message = concat3("unsupported Spotify auth method `", name, "`");
                Err(ProviderError::invalid_input("method", message.as_str()))
            }
        },
        None => match preferred {
            AuthMethod::DevApp => Ok(AuthMethod::DevApp),
            AuthMethod::FirstParty => first_party_method(embedded_playback),
        },
    }
}

/// The method of a provider whose user asked for none: what the environment
/// says, else first-party where that is all that is stored.
pub fn preferred_method(env_override: Option<bool>, stored_first_party_only: bool) -> (r:
    AuthMethod)
    ensures
        r == match env_override {
            Some(true) => AuthMethod::FirstParty,
            Some(false) => AuthMethod::DevApp,
            None => if stored_first_party_only {
                AuthMethod::FirstParty
            } else {
                AuthMethod::DevApp
            },
        },
{
    match env_override {
        Some(first_party) => if first_party {
            AuthMethod::FirstParty
        } else {
            AuthMethod::DevApp
        },
        None => if stored_first_party_only {
            AuthMethod::FirstParty
        } else {
            AuthMethod::DevApp
        },
    }
}

/// Whether a provider that signs nobody in takes a method: none, or `none`.
pub open spec fn is_no_method(requested: Option<Seq<char>>) -> bool {
    requested is None || requested->0 == "none"@
}

/// The error for a method that a provider without sign-in does not use.
pub open spec fn unused_method(provider: Seq<char>, method: Seq<char>) -> ProviderErrorModel {
    ProviderErrorModel::InvalidInput {
        field: "method"@,
        message: "provider `"@ + provider + "` does not use auth method `"@ + method + "`"@,
    }
}

/// Rejects a method for a provider that signs nobody in.
pub fn validate_no_auth_method(provider: &str, requested: Option<&str>) -> (r: Result<
    (),
    ProviderError,
>)
    ensures
        match r {
            Ok(_) => is_no_method(opt_str(requested)),
            Err(error) => !is_no_method(opt_str(requested)) && error@ == unused_method(
                provider@,
                requested->0@,
            ),
        },
{
    match requested {
        None => Ok(()),
        Some(method) => {
            if same_text(method, "none") {
                Ok(())
            } else {
                let message = concat5(
                    "provider `",
                    provider,
                    "` does not use auth method `",
                    method,
                    "`",
                );
                Err(ProviderError::invalid_input("method", message.as_str()))
            }
        },
    }
}

// ---------------------------------------------------------------------------
// The table of sessions
// ---------------------------------------------------------------------------

/// The sessions that are under way or whose end is still remembered.
#[derive(Debug)]
pub struct AuthSessions {
    sessions: Vec<AuthSession>,
}

impl View for AuthSessions {
    type V = Seq<SessionModel>;

    closed spec fn view(&self) -> Seq<SessionModel> {
        seq_view(self.sessions@)
    }
}

/// What every table of sessions satisfies: ids are unique, each session is
/// consistent, and a provider has at most one that is under way.
pub open spec fn table_ok(sessions: Seq<SessionModel>) -> bool {
    &&& forall|i: int| 0 <= i < sessions.len() ==> (#[trigger] sessions[i]).consistent()
    &&& forall|i: int, j: int|
        0 <= i < j < sessions.len() ==> sessions[i].session_id != sessions[j].session_id
    &&& forall|i: int, j: int|
        0 <= i < j < sessions.len() && sessions[i].unfinished() && sessions[j].unfinished()
            ==> sessions[i].provider != sessions[j].provider
}

/// The place of a session in the table; its length where there is none.
pub open spec fn place_of(sessions: Seq<SessionModel>, id: Seq<char>) -> int
    decreases sessions.len(),
{
    if sessions.len() == 0 || sessions[0].session_id == id {
        0
    } else {
        1 + place_of(sessions.skip(1), id)
    }
}

/// Whether no session of the table has that id.
pub open spec fn is_unused(sessions: Seq<SessionModel>, id: Seq<char>) -> bool {
    forall|i: int| 0 <= i < sessions.len() ==> (#[trigger] sessions[i]).session_id != id
}

proof fn lemma_place_of(sessions: Seq<SessionModel>, id: Seq<char>, i: int)
    requires
        0 <= i <= sessions.len(),
        forall|k: int| 0 <= k < i ==> (#[trigger] sessions[k]).session_id != id,
        i < sessions.len() ==> sessions[i].session_id == id,
    ensures
        place_of(sessions, id) == i,
    decreases i,
{
    if i > 0 {
        assert forall|k: int| 0 <= k < i - 1 implies (#[trigger] sessions.skip(1)[k]).session_id
            != id by {
            assert(sessions.skip(1)[k] == sessions[k + 1]);
        }
        lemma_place_of(sessions.skip(1), id, i - 1);
    }
}

/// The sessions that are not yet forgotten, in their order.
pub open spec fn remembered(sessions: Seq<SessionModel>, now_ms: i64) -> Seq<SessionModel> {
    sessions.filter(|s: SessionModel| !s.forgotten(now_ms))
}

/// The sessions with every active one of a provider, or of all, cancelled.
pub open spec fn all_cancelled(
    sessions: Seq<SessionModel>,
    provider: Option<Seq<char>>,
    now_ms: i64,
) -> Seq<SessionModel> {
    Seq::new(
        sessions.len(),
        |i: int|
            if provider is None || provider->0 == sessions[i].provider {
                sessions[i].ended(StateModel::Cancelled, now_ms)
            } else {
                sessions[i]
            },
    )
}

/// The ids of the active sessions of a provider, or of all.
pub open spec fn active_ids(sessions: Seq<SessionModel>, provider: Option<Seq<char>>) -> Seq<
    Seq<char>,
>
    decreases sessions.len(),
{
    if sessions.len() == 0 {
        Seq::empty()
    } else {
        let rest = active_ids(sessions.drop_last(), provider);
        let last = sessions.last();
        if last.lifecycle == AuthLifecycle::Active && (provider is None || provider->0
            == last.provider) {
            rest.push(last.session_id)
        } else {
            rest
        }
    }
}

/// The place of the session of a provider that is under way; the length of
/// the table where there is none.
pub open spec fn place_of_unfinished(sessions: Seq<SessionModel>, provider: Seq<char>) -> int
    decreases sessions.len(),
{
    if sessions.len() == 0 || (sessions[0].provider == provider && sessions[0].unfinished()) {
        0
    } else {
        1 + place_of_unfinished(sessions.skip(1), provider)
    }
}

proof fn lemma_place_of_unfinished(sessions: Seq<SessionModel>, provider: Seq<char>, i: int)
    requires
        0 <= i <= sessions.len(),
        forall|k: int|
            0 <= k < i ==> !((#[trigger] sessions[k]).provider == provider
                && sessions[k].unfinished()),
        i < sessions.len() ==> sessions[i].provider == provider && sessions[i].unfinished(),
    ensures
        place_of_unfinished(sessions, provider) == i,
    decreases i,
{
    if i > 0 {
        assert forall|k: int| 0 <= k < i - 1 implies !((#[trigger] sessions.skip(1)[k]).provider
            == provider && sessions.skip(1)[k].unfinished()) by {
            assert(sessions.skip(1)[k] == sessions[k + 1]);
        }
        lemma_place_of_unfinished(sessions.skip(1), provider, i - 1);
    }
}

/// The error for a provider that has a session under way.
pub open spec fn already_in_progress(provider: Seq<char>, existing: SessionModel) ->
    ProviderErrorModel {
    ProviderErrorModel::InvalidInput {
        field: "auth_session"@,
        message: "authentication already in progress for provider `"@ + provider + "` method `"@
            + existing.method + "` (session "@ + existing.session_id + ")"@,
    }
}

/// The error for a session that is not in the table.
pub open spec fn session_not_found(id: Seq<char>) -> ProviderErrorModel {
    ProviderErrorModel::NotFound { resource: "auth-session:"@ + id }
}

/// The error for a session that is not in the table.
pub fn auth_session_not_found(session_id: &str) -> (r: ProviderError)
    ensures
        r@ == session_not_found(session_id@),
{
    ProviderError::NotFound { resource: concat2("auth-session:", session_id) }
}

/// A session as a caller sees it, and whether its sign-in has to be stopped.
#[derive(Debug)]
pub struct SessionAnswer {
    pub session: AuthSession,
    pub stop: bool,
}

impl AuthSessions {
    /// What every table satisfies.
    pub open spec fn wf(&self) -> bool {
        table_ok(self@)
    }

    /// An empty table.
    pub fn new() -> (r: Self)
        ensures
            r@ == Seq::<SessionModel>::empty(),
            r.wf(),
    {
        let r = AuthSessions { sessions: Vec::new() };
        assert(r@ =~= Seq::<SessionModel>::empty());
        r
    }

    fn find(&self, session_id: &str) -> (r: usize)
        ensures
            r <= self@.len(),
            r == place_of(self@, session_id@),
            r < self@.len() ==> self@[r as int].session_id == session_id@,
            forall|k: int| 0 <= k < r ==> (#[trigger] self@[k]).session_id != session_id@,
    {
        let mut i: usize = 0;
        while i < self.sessions.len() && !same_text(
            self.sessions[i].session_id.as_str(),
            session_id,
        )
            invariant
                i <= self.sessions@.len(),
                self@.len() == self.sessions@.len(),
                forall|k: int| 0 <= k < i ==> (#[trigger] self@[k]).session_id != session_id@,
            decreases self.sessions@.len() - i,
        {
            assert(self@[i as int] == self.sessions@[i as int]@);
            i = i + 1;
        }
        proof {
            if i < self@.len() {
                assert(self@[i as int] == self.sessions@[i as int]@);
            }
            lemma_place_of(self@, session_id@, i as int);
        }
        i
    }

    /// Whether a session of that id is in the table.
    pub fn knows(&self, session_id: &str) -> (r: bool)
        ensures
            r == !is_unused(self@, session_id@),
            r == (place_of(self@, session_id@) < self@.len()),
    {
        let i: usize = self.find(session_id);
        let r = i < self.sessions.len();
        assert(r ==> self@[i as int].session_id == session_id@);
        r
    }

    /// Forgets the sessions whose end is long enough ago.
    pub fn prune_expired_terminals(&mut self, now_ms: i64)
        requires
            old(self).wf(),
        ensures
            final(self)@ == remembered(old(self)@, now_ms),
            final(self).wf(),
    {
        let ghost all = self@;
        let ghost kept = |s: SessionModel| !s.forgotten(now_ms);
        let mut out: Vec<AuthSession> = Vec::new();
        let mut i: usize = 0;
        proof {
            reveal(Seq::filter);
            assert(all.take(0) =~= Seq::<SessionModel>::empty());
            assert(seq_view(out@) =~= Seq::<SessionModel>::empty());
        }
        while i < self.sessions.len()
            invariant
                i <= self.sessions@.len(),
                all == self@,
                kept == (|s: SessionModel| !s.forgotten(now_ms)),
                seq_view(out@) == all.take(i as int).filter(kept),
            decreases self.sessions@.len() - i,
        {
            proof {
                reveal(Seq::filter);
                assert(all.take(i as int + 1).drop_last() =~= all.take(i as int));
                assert(all.take(i as int + 1).last() == self.sessions@[i as int]@);
            }
            let session = &self.sessions[i];
            if !(session.state.is_terminal() && now_ms > session.expires_at_ms) {
                out.push(session.clone());
            }
            i = i + 1;
        }
        self.sessions = out;
        proof {
            assert(all.take(all.len() as int) =~= all);
            lemma_filter_keeps_table(all, now_ms);
        }
    }

    fn find_unfinished(&self, provider: &ProviderId) -> (r: usize)
        ensures
            r <= self@.len(),
            r == place_of_unfinished(self@, provider@),
            r < self@.len() ==> self@[r as int].provider == provider@ && self@[r as int].unfinished(),
            forall|k: int|
                0 <= k < r ==> !((#[trigger] self@[k]).provider == provider@
                    && self@[k].unfinished()),
    {
        let mut i: usize = 0;
        while i < self.sessions.len() && !(self.sessions[i].provider.same(provider)
            && self.sessions[i].lifecycle != AuthLifecycle::Terminal)
            invariant
                i <= self.sessions@.len(),
                self@.len() == self.sessions@.len(),
                forall|k: int|
                    0 <= k < i ==> !((#[trigger] self@[k]).provider == provider@
                        && self@[k].unfinished()),
            decreases self.sessions@.len() - i,
        {
            assert(self@[i as int] == self.sessions@[i as int]@);
            i = i + 1;
        }
        proof {
            if i < self@.len() {
                assert(self@[i as int] == self.sessions@[i as int]@);
            }
            lemma_place_of_unfinished(self@, provider@, i as int);
        }
        i
    }

    /// The session of a provider that is under way, if there is one.
    pub fn active_session(&self, provider: &ProviderId) -> (r: Option<AuthSession>)
        ensures
            opt_view(r) == if place_of_unfinished(self@, provider@) < self@.len() {
                Some(self@[place_of_unfinished(self@, provider@)])
            } else {
                None
            },
    {
        let i: usize = self.find_unfinished(provider);
        if i < self.sessions.len() {
            assert(self@[i as int] == self.sessions@[i as int]@);
            Some(self.sessions[i].clone())
        } else {
            None
        }
    }

    /// Rejects a second session of a provider: two clients must not share one
    /// that either of them can cancel.
    pub fn ensure_no_active_session(&self, provider: &ProviderId) -> (r: Result<(), ProviderError>)
        ensures
            match r {
                Ok(_) => forall|k: int|
                    0 <= k < self@.len() ==> !((#[trigger] self@[k]).provider == provider@
                        && self@[k].unfinished()),
                Err(error) => {
                    let i = place_of_unfinished(self@, provider@);
                    0 <= i < self@.len() && self@[i].unfinished() && self@[i].provider
                        == provider@ && error@ == already_in_progress(provider@, self@[i])
                },
            },
    {
        match self.active_session(provider) {
            None => {
                let i: usize = self.find_unfinished(provider);
                Ok(())
            },
            Some(existing) => {
                let i: usize = self.find_unfinished(provider);
                let mut message = concat5(
                    "authentication already in progress for provider `",
                    provider.as_str(),
                    "` method `",
                    existing.method.as_str(),
                    "` (session ",
                );
                message.append(existing.session_id.as_str());
                message.append(")");
                Err(ProviderError::invalid_input("auth_session", message.as_str()))
            },
        }
    }

    /// Records a session of a provider that signs nobody in: it is over as it
    /// starts.
    pub fn start_without_auth(
        &mut self,
        session_id: &str,
        provider: ProviderId,
        requested: Option<&str>,
        now_ms: i64,
    ) -> (r: Result<AuthSession, ProviderError>)
        requires
            old(self).wf(),
            is_unused(old(self)@, session_id@),
        ensures
            final(self).wf(),
            match r {
                Ok(session) => {
                    &&& is_no_method(opt_str(requested))
                    &&& session@ == fresh_session(
                        session_id@,
                        provider@,
                        "none"@,
                        StateModel::Authorized,
                        now_ms,
                    )
                    &&& final(self)@ == remembered(old(self)@, now_ms).push(session@)
                },
                Err(error) => !is_no_method(opt_str(requested)) && error@ == unused_method(
                    provider@,
                    requested->0@,
                ) && final(self)@ == old(self)@,
            },
    {
        if let Err(error) = validate_no_auth_method(provider.as_str(), requested) {
            return Err(error);
        }
        let ghost before = self@;
        self.prune_expired_terminals(now_ms);
        let session = new_session(
            session_id,
            provider,
            "none",
            AuthSessionState::Authorized,
            now_ms,
        );
        let ghost pruned = self@;
        self.sessions.push(session.clone());
        proof {
            lemma_no_such_id(before, now_ms, session_id@);
            assert(self@ == pruned.push(session@));
            lemma_push_keeps_table(pruned, session@);
        }
        Ok(session)
    }

    /// Opens a session that a worker will sign in through.
    pub fn start_oauth(
        &mut self,
        session_id: &str,
        provider: ProviderId,
        method: AuthMethod,
        now_ms: i64,
    ) -> (r: Result<AuthSession, ProviderError>)
        requires
            old(self).wf(),
            is_unused(old(self)@, session_id@),
        ensures
            final(self).wf(),
            ({
                let known = remembered(old(self)@, now_ms);
                match r {
                    Ok(session) => {
                        &&& forall|k: int|
                            0 <= k < known.len() ==> !((#[trigger] known[k]).provider == provider@
                                && known[k].unfinished())
                        &&& session@ == fresh_session(
                            session_id@,
                            provider@,
                            method.name(),
                            StateModel::Starting,
                            now_ms,
                        )
                        &&& final(self)@ == known.push(session@)
                    },
                    Err(error) => {
                        let i = place_of_unfinished(known, provider@);
                        &&& 0 <= i < known.len()
                        &&& known[i].unfinished() && known[i].provider == provider@
                        &&& error@ == already_in_progress(provider@, known[i])
                        &&& final(self)@ == known
                    },
                }
            }),
    {
        let ghost before = self@;
        self.prune_expired_terminals(now_ms);
        if let Err(error) = self.ensure_no_active_session(&provider) {
            return Err(error);
        }
        let session = new_session(
            session_id,
            provider,
            method.label(),
            AuthSessionState::Starting,
            now_ms,
        );
        let ghost pruned = self@;
        self.sessions.push(session.clone());
        proof {
            lemma_no_such_id(before, now_ms, session_id@);
            assert(self@ == pruned.push(session@));
            lemma_push_keeps_table(pruned, session@);
        }
        Ok(session)
    }

    /// Takes in a report of a session's sign-in.
    pub fn apply_progress(&mut self, session_id: &str, event: LoginProgress)
        requires
            old(self).wf(),
        ensures
            final(self).wf(),
            ({
                let i = place_of(old(self)@, session_id@);
                final(self)@ == if i < old(self)@.len() {
                    old(self)@.update(i, old(self)@[i].progressed(event))
                } else {
                    old(self)@
                }
            }),
    {
        let i: usize = self.find(session_id);
        let ghost before = self@;
        if i < self.sessions.len() {
            assert(before[i as int] == self.sessions@[i as int]@);
            self.sessions[i].apply_progress(event);
            proof {
                assert(self@ =~= before.update(i as int, before[i as int].progressed(event)));
                lemma_update_keeps_table(before, i as int, before[i as int].progressed(event));
            }
        }
    }

    /// Claims the commit of a session for its worker; says whether the
    /// session was there for it.
    pub fn claim_commit(&mut self, session_id: &str) -> (r: bool)
        requires
            old(self).wf(),
        ensures
            final(self).wf(),
            ({
                let i = place_of(old(self)@, session_id@);
                &&& r == (i < old(self)@.len() && old(self)@[i].lifecycle == AuthLifecycle::Active)
                &&& final(self)@ == if i < old(self)@.len() {
                    old(self)@.update(i, old(self)@[i].claimed())
                } else {
                    old(self)@
                }
            }),
    {
        let i: usize = self.find(session_id);
        let ghost before = self@;
        if i < self.sessions.len() {
            assert(before[i as int] == self.sessions@[i as int]@);
            let r = self.sessions[i].claim_commit();
            proof {
                assert(self@ =~= before.update(i as int, before[i as int].claimed()));
                lemma_update_keeps_table(before, i as int, before[i as int].claimed());
            }
            r
        } else {
            false
        }
    }

    /// Ends a session whose commit is done.
    pub fn finish_commit(&mut self, session_id: &str, report: CommitReport, now_ms: i64)
        requires
            old(self).wf(),
        ensures
            final(self).wf(),
            ({
                let i = place_of(old(self)@, session_id@);
                final(self)@ == if i < old(self)@.len() {
                    old(self)@.update(
                        i,
                        old(self)@[i].committed(state_of_commit(report), now_ms),
                    )
                } else {
                    old(self)@
                }
            }),
    {
        let i: usize = self.find(session_id);
        let ghost before = self@;
        if i < self.sessions.len() {
            assert(before[i as int] == self.sessions@[i as int]@);
            let ghost state = state_of_commit(report);
            let end = commit_state(report);
            self.sessions[i].finish_commit(end, now_ms);
            proof {
                assert(self@ =~= before.update(
                    i as int,
                    before[i as int].committed(state, now_ms),
                ));
                lemma_update_keeps_table(
                    before,
                    i as int,
                    before[i as int].committed(state, now_ms),
                );
            }
        }
    }

    /// Fails a session whose sign-in failed.
    pub fn authorization_failed(&mut self, session_id: &str, message: &str, now_ms: i64)
        requires
            old(self).wf(),
        ensures
            final(self).wf(),
            ({
                let i = place_of(old(self)@, session_id@);
                final(self)@ == if i < old(self)@.len() {
                    old(self)@.update(
                        i,
                        old(self)@[i].ended(StateModel::Failed { message: message@ }, now_ms),
                    )
                } else {
                    old(self)@
                }
            }),
    {
        let i: usize = self.find(session_id);
        let ghost before = self@;
        if i < self.sessions.len() {
            assert(before[i as int] == self.sessions@[i as int]@);
            let ghost state = StateModel::Failed { message: message@ };
            let ended = self.sessions[i].transition_active_to_terminal(
                AuthSessionState::Failed { message: message.to_owned() },
                now_ms,
            );
            proof {
                assert(self@ =~= before.update(i as int, before[i as int].ended(state, now_ms)));
                lemma_update_keeps_table(before, i as int, before[i as int].ended(state, now_ms));
            }
        }
    }

    /// Shows a session, after a look at the clock.
    pub fn poll(&mut self, session_id: &str, now_ms: i64) -> (r: Result<
        SessionAnswer,
        ProviderError,
    >)
        requires
            old(self).wf(),
        ensures
            final(self).wf(),
            ({
                let known = remembered(old(self)@, now_ms);
                let i = place_of(known, session_id@);
                match r {
                    Ok(answer) => {
                        &&& i < known.len()
                        &&& answer.session@ == known[i].aged(now_ms)
                        &&& answer.stop == known[i].expires(now_ms)
                        &&& final(self)@ == known.update(i, known[i].aged(now_ms))
                    },
                    Err(error) => i >= known.len() && error@ == session_not_found(session_id@)
                        && final(self)@ == known,
                }
            }),
    {
        self.prune_expired_terminals(now_ms);
        let i: usize = self.find(session_id);
        let ghost before = self@;
        if i >= self.sessions.len() {
            return Err(auth_session_not_found(session_id));
        }
        assert(before[i as int] == self.sessions@[i as int]@);
        let stop = self.sessions[i].expire_if_needed(now_ms);
        proof {
            assert(self@ =~= before.update(i as int, before[i as int].aged(now_ms)));
            lemma_update_keeps_table(before, i as int, before[i as int].aged(now_ms));
        }
        Ok(SessionAnswer { session: self.sessions[i].clone(), stop })
    }

    /// Cancels a session that is still active and shows it. One whose commit
    /// was claimed is shown as it is: its worker will publish the end.
    pub fn cancel(&mut self, session_id: &str, now_ms: i64) -> (r: Result<
        SessionAnswer,
        ProviderError,
    >)
        requires
            old(self).wf(),
        ensures
            final(self).wf(),
            ({
                let known = remembered(old(self)@, now_ms);
                let i = place_of(known, session_id@);
                match r {
                    Ok(answer) => {
                        &&& i < known.len()
                        &&& answer.session@ == known[i].ended(StateModel::Cancelled, now_ms)
                        &&& answer.stop == (known[i].lifecycle == AuthLifecycle::Active)
                        &&& final(self)@ == known.update(
                            i,
                            known[i].ended(StateModel::Cancelled, now_ms),
                        )
                    },
                    Err(error) => i >= known.len() && error@ == session_not_found(session_id@)
                        && final(self)@ == known,
                }
            }),
    {
        self.prune_expired_terminals(now_ms);
        let i: usize = self.find(session_id);
        let ghost before = self@;
        if i >= self.sessions.len() {
            return Err(auth_session_not_found(session_id));
        }
        assert(before[i as int] == self.sessions@[i as int]@);
        let stop = self.sessions[i].transition_active_to_terminal(
            AuthSessionState::Cancelled,
            now_ms,
        );
        proof {
            let end = before[i as int].ended(StateModel::Cancelled, now_ms);
            assert(self@ =~= before.update(i as int, end));
            lemma_update_keeps_table(before, i as int, end);
        }
        Ok(SessionAnswer { session: self.sessions[i].clone(), stop })
    }

    /// Cancels the active sessions of a provider, or of all, and names those
    /// whose sign-in has to be stopped.
    fn cancel_matching(&mut self, provider: Option<&ProviderId>, now_ms: i64) -> (r: Vec<String>)
        requires
            old(self).wf(),
        ensures
            final(self).wf(),
            ({
                let wanted = match provider {
                    Some(id) => Some(id@),
                    None => None,
                };
                let known = remembered(old(self)@, now_ms);
                &&& final(self)@ == all_cancelled(known, wanted, now_ms)
                &&& texts(r@) == active_ids(known, wanted)
            }),
    {
        self.prune_expired_terminals(now_ms);
        let ghost known = self@;
        let ghost wanted: Option<Seq<char>> = match provider {
            Some(id) => Some(id@),
            None => None,
        };
        let mut stopped: Vec<String> = Vec::new();
        let mut i: usize = 0;
        proof {
            assert(known.take(0) =~= Seq::<SessionModel>::empty());
            assert(texts(stopped@) =~= Seq::<Seq<char>>::empty());
        }
        while i < self.sessions.len()
            invariant
                i <= self.sessions@.len(),
                self@.len() == self.sessions@.len(),
                self@.len() == known.len(),
                wanted == (match provider {
                    Some(id) => Some(id@),
                    None => None,
                }),
                forall|k: int|
                    0 <= k < i ==> (#[trigger] self@[k]) == all_cancelled(
                        known,
                        wanted,
                        now_ms,
                    )[k],
                forall|k: int| i <= k < known.len() ==> (#[trigger] self@[k]) == known[k],
                texts(stopped@) == active_ids(known.take(i as int), wanted),
            decreases self.sessions@.len() - i,
        {
            let ghost before = self@;
            proof {
                assert(self@[i as int] == known[i as int]);
                assert(self@[i as int] == self.sessions@[i as int]@);
                assert(known.take(i as int + 1).drop_last() =~= known.take(i as int));
                assert(known.take(i as int + 1).last() == known[i as int]);
            }
            let matches = match provider {
                Some(id) => self.sessions[i].provider.same(id),
                None => true,
            };
            if matches {
                let ended = self.sessions[i].transition_active_to_terminal(
                    AuthSessionState::Cancelled,
                    now_ms,
                );
                proof {
                    assert(self@ =~= before.update(
                        i as int,
                        known[i as int].ended(StateModel::Cancelled, now_ms),
                    ));
                }
                if ended {
                    stopped.push(self.sessions[i].session_id.clone());
                }
            }
            i = i + 1;
        }
        proof {
            assert(known.take(known.len() as int) =~= known);
            assert(self@ =~= all_cancelled(known, wanted, now_ms));
            lemma_cancelling_keeps_table(known, wanted, now_ms);
        }
        stopped
    }

    /// Cancels every active session, as the settings they started from are
    /// replaced.
    pub fn cancel_for_reload(&mut self, now_ms: i64) -> (r: Vec<String>)
        requires
            old(self).wf(),
        ensures
            final(self).wf(),
            final(self)@ == all_cancelled(remembered(old(self)@, now_ms), None, now_ms),
            texts(r@) == active_ids(remembered(old(self)@, now_ms), None),
    {
        self.cancel_matching(None, now_ms)
    }

    /// Cancels the active sessions of a provider, as its credentials go.
    pub fn cancel_for_logout(&mut self, provider: &ProviderId, now_ms: i64) -> (r: Vec<String>)
        requires
            old(self).wf(),
        ensures
            final(self).wf(),
            final(self)@ == all_cancelled(
                remembered(old(self)@, now_ms),
                Some(provider@),
                now_ms,
            ),
            texts(r@) == active_ids(remembered(old(self)@, now_ms), Some(provider@)),
    {
        self.cancel_matching(Some(provider), now_ms)
    }
}

// ---------------------------------------------------------------------------
// What keeps a table in order
// ---------------------------------------------------------------------------

proof fn lemma_filter_members(sessions: Seq<SessionModel>, now_ms: i64)
    ensures
        forall|i: int|
            0 <= i < remembered(sessions, now_ms).len() ==> sessions.contains(
                #[trigger] remembered(sessions, now_ms)[i],
            ) && !remembered(sessions, now_ms)[i].forgotten(now_ms),
        forall|i: int|
            0 <= i < sessions.len() && !(#[trigger] sessions[i]).forgotten(now_ms) ==> remembered(
                sessions,
                now_ms,
            ).contains(sessions[i]),
    decreases sessions.len(),
{
    reveal(Seq::filter);
    if sessions.len() > 0 {
        let init = sessions.drop_last();
        lemma_filter_members(init, now_ms);
        let sub = remembered(init, now_ms);
        let all = remembered(sessions, now_ms);
        assert forall|i: int| 0 <= i < all.len() implies sessions.contains(#[trigger] all[i])
            && !all[i].forgotten(now_ms) by {
            if i < sub.len() {
                assert(all[i] == sub[i]);
                let k = choose|k: int| 0 <= k < init.len() && init[k] == sub[i];
                assert(sessions[k] == all[i]);
            } else {
                assert(sessions[sessions.len() - 1] == all[i]);
            }
        }
        assert forall|i: int|
            0 <= i < sessions.len() && !(#[trigger] sessions[i]).forgotten(now_ms) implies
            all.contains(sessions[i]) by {
            if i < init.len() {
                assert(init[i] == sessions[i]);
                let k = choose|k: int| 0 <= k < sub.len() && sub[k] == init[i];
                assert(all[k] == sessions[i]);
            } else {
                assert(all[all.len() - 1] == sessions[i]);
            }
        }
    }
}

proof fn lemma_filter_keeps_table(sessions: Seq<SessionModel>, now_ms: i64)
    requires
        table_ok(sessions),
    ensures
        table_ok(remembered(sessions, now_ms)),
    decreases sessions.len(),
{
    reveal(Seq::filter);
    if sessions.len() > 0 {
        let init = sessions.drop_last();
        assert(table_ok(init)) by {
            assert forall|i: int| 0 <= i < init.len() implies (#[trigger] init[i]).consistent() by {
                assert(init[i] == sessions[i]);
            }
        }
        lemma_filter_keeps_table(init, now_ms);
        lemma_filter_members(init, now_ms);
        let sub = remembered(init, now_ms);
        let last = sessions.last();
        if !last.forgotten(now_ms) {
            assert(remembered(sessions, now_ms) =~= sub.push(last));
            assert forall|i: int| 0 <= i < sub.len() implies (#[trigger] sub[i]).session_id
                != last.session_id && (sub[i].unfinished() && last.unfinished()
                ==> sub[i].provider != last.provider) by {
                let k = choose|k: int| 0 <= k < init.len() && init[k] == sub[i];
                assert(sessions[k] == sub[i]);
                assert(sessions[k].session_id != sessions[sessions.len() - 1].session_id);
            }
            lemma_push_keeps_table(sub, last);
        }
    }
}

proof fn lemma_push_keeps_table(sessions: Seq<SessionModel>, session: SessionModel)
    requires
        table_ok(sessions),
        session.consistent(),
        forall|i: int|
            0 <= i < sessions.len() ==> (#[trigger] sessions[i]).session_id != session.session_id
                && (sessions[i].unfinished() && session.unfinished() ==> sessions[i].provider
                != session.provider),
    ensures
        table_ok(sessions.push(session)),
{
    let all = sessions.push(session);
    assert forall|i: int| 0 <= i < all.len() implies (#[trigger] all[i]).consistent() by {
        if i < sessions.len() {
            assert(all[i] == sessions[i]);
        }
    }
    assert forall|i: int, j: int| 0 <= i < j < all.len() implies all[i].session_id
        != all[j].session_id by {
        assert(all[i] == sessions[i]);
        if j < sessions.len() {
            assert(all[j] == sessions[j]);
        }
    }
    assert forall|i: int, j: int|
        0 <= i < j < all.len() && all[i].unfinished() && all[j].unfinished() implies
        all[i].provider != all[j].provider by {
        assert(all[i] == sessions[i]);
        if j < sessions.len() {
            assert(all[j] == sessions[j]);
        }
    }
}

proof fn lemma_update_keeps_table(sessions: Seq<SessionModel>, at: int, session: SessionModel)
    requires
        table_ok(sessions),
        0 <= at < sessions.len(),
        session.consistent(),
        session.session_id == sessions[at].session_id,
        session.provider == sessions[at].provider,
        session.unfinished() ==> sessions[at].unfinished(),
    ensures
        table_ok(sessions.update(at, session)),
{
    let all = sessions.update(at, session);
    assert forall|i: int| 0 <= i < all.len() implies (#[trigger] all[i]).consistent() by {
        if i != at {
            assert(all[i] == sessions[i]);
        }
    }
    assert forall|i: int, j: int| 0 <= i < j < all.len() implies all[i].session_id
        != all[j].session_id by {
        assert(sessions[i].session_id != sessions[j].session_id);
    }
    assert forall|i: int, j: int|
        0 <= i < j < all.len() && all[i].unfinished() && all[j].unfinished() implies
        all[i].provider != all[j].provider by {
        assert(sessions[i].unfinished() && sessions[j].unfinished());
        assert(sessions[i].provider != sessions[j].provider);
    }
}

proof fn lemma_cancelling_keeps_table(
    sessions: Seq<SessionModel>,
    provider: Option<Seq<char>>,
    now_ms: i64,
)
    requires
        table_ok(sessions),
    ensures
        table_ok(all_cancelled(sessions, provider, now_ms)),
{
    let all = all_cancelled(sessions, provider, now_ms);
    assert forall|i: int| 0 <= i < all.len() implies (#[trigger] all[i]).consistent() by {
        assert(sessions[i].consistent());
    }
    assert forall|i: int, j: int| 0 <= i < j < all.len() implies all[i].session_id
        != all[j].session_id by {
        assert(sessions[i].session_id != sessions[j].session_id);
    }
    assert forall|i: int, j: int|
        0 <= i < j < all.len() && all[i].unfinished() && all[j].unfinished() implies
        all[i].provider != all[j].provider by {
        assert(sessions[i].unfinished() && sessions[j].unfinished());
        assert(sessions[i].provider != sessions[j].provider);
    }
}

proof fn lemma_place_bounds(sessions: Seq<SessionModel>, id: Seq<char>)
    ensures
        0 <= place_of(sessions, id) <= sessions.len(),
        forall|k: int|
            0 <= k < place_of(sessions, id) ==> (#[trigger] sessions[k]).session_id != id,
    decreases sessions.len(),
{
    if sessions.len() > 0 && sessions[0].session_id != id {
        lemma_place_bounds(sessions.skip(1), id);
        assert forall|k: int| 0 <= k < place_of(sessions, id) implies (
        #[trigger] sessions[k]).session_id != id by {
            if k > 0 {
                assert(sessions.skip(1)[k - 1] == sessions[k]);
            }
        }
    }
}

proof fn lemma_no_such_id(sessions: Seq<SessionModel>, now_ms: i64, id: Seq<char>)
    requires
        is_unused(sessions, id),
    ensures
        forall|i: int|
            0 <= i < remembered(sessions, now_ms).len() ==> (#[trigger] remembered(
                sessions,
                now_ms,
            )[i]).session_id != id,
{
    lemma_filter_members(sessions, now_ms);
    let kept = remembered(sessions, now_ms);
    assert forall|i: int| 0 <= i < kept.len() implies (#[trigger] kept[i]).session_id != id by {
        let k = choose|k: int| 0 <= k < sessions.len() && sessions[k] == kept[i];
        assert(sessions[k].session_id != id);
    }
}

// ---------------------------------------------------------------------------
// Laws
// ---------------------------------------------------------------------------

/// Cancelling and committing exclude each other: whichever an active session
/// takes first, the other finds nothing to do. A session whose commit was
/// claimed never shows `Cancelled`.
pub proof fn cancel_and_commit_exclude_each_other(session: SessionModel, end: StateModel, t: i64)
    requires
        session.lifecycle == AuthLifecycle::Active,
        session.consistent(),
        end.terminal(),
        !(end is Cancelled),
    ensures
        ({
            let cancelled = session.ended(StateModel::Cancelled, t);
            let claimed = session.claimed();
            &&& cancelled.state is Cancelled
            &&& cancelled.claimed() == cancelled
            &&& cancelled.committed(end, t) == cancelled
            &&& claimed.ended(StateModel::Cancelled, t) == claimed
            &&& !(claimed.state is Cancelled)
            &&& claimed.committed(end, t).state == end
        }),
{
}

/// A session that is over is never rewritten, whatever arrives late.
pub proof fn ended_sessions_are_final(
    session: SessionModel,
    event: LoginProgress,
    state: StateModel,
    t: i64,
)
    requires
        session.lifecycle == AuthLifecycle::Terminal,
    ensures
        session.with_active_state(state) == session,
        session.progressed(event) == session,
        session.claimed() == session,
        session.ended(state, t) == session,
        session.committed(state, t) == session,
        session.aged(t) == session,
{
}

/// A claimed commit is not disturbed by time, reports or cancelling.
pub proof fn commits_are_undisturbed(
    session: SessionModel,
    event: LoginProgress,
    state: StateModel,
    t: i64,
)
    requires
        session.lifecycle == AuthLifecycle::Committing,
    ensures
        session.progressed(event) == session,
        session.claimed() == session,
        session.ended(state, t) == session,
        session.aged(t) == session,
{
}

/// Every step keeps a session consistent and keeps who it belongs to.
pub proof fn steps_keep_sessions_consistent(
    session: SessionModel,
    event: LoginProgress,
    end: StateModel,
    t: i64,
)
    requires
        session.consistent(),
        end.terminal(),
    ensures
        session.progressed(event).consistent(),
        session.claimed().consistent(),
        session.ended(end, t).consistent(),
        session.committed(end, t).consistent(),
        session.aged(t).consistent(),
        session.progressed(event).session_id == session.session_id,
        session.aged(t).provider == session.provider,
{
}

/// An active session whose time is up fails when it is looked at, and one
/// whose time is not up is left alone.
pub proof fn sessions_expire_on_time(session: SessionModel, t: i64)
    requires
        session.consistent(),
    ensures
        session.lifecycle == AuthLifecycle::Active && t > session.expires_at_ms
            ==> session.aged(t).state == (StateModel::Failed {
            message: "authentication session expired"@,
        }) && session.aged(t).expires_at_ms == expiry(t),
        t <= session.expires_at_ms ==> session.aged(t) == session,
{
}

/// Forgetting old sessions never drops one that is under way, and keeps all
/// that are not old.
pub proof fn unfinished_sessions_are_remembered(sessions: Seq<SessionModel>, i: int, t: i64)
    requires
        table_ok(sessions),
        0 <= i < sessions.len(),
        sessions[i].unfinished() || t <= sessions[i].expires_at_ms,
    ensures
        remembered(sessions, t).contains(sessions[i]),
{
    lemma_filter_members(sessions, t);
    assert(sessions[i].consistent());
}

/// After a reload no session is active: each is over or in its commit.
pub proof fn reload_leaves_nothing_active(sessions: Seq<SessionModel>, i: int, t: i64)
    requires
        0 <= i < sessions.len(),
    ensures
        all_cancelled(sessions, None, t)[i].lifecycle != AuthLifecycle::Active,
        sessions[i].lifecycle == AuthLifecycle::Active ==> all_cancelled(
            sessions,
            None,
            t,
        )[i].state is Cancelled,
{
}

/// Signing a provider out touches no session of another provider.
pub proof fn logout_spares_other_providers(
    sessions: Seq<SessionModel>,
    provider: Seq<char>,
    i: int,
    t: i64,
)
    requires
        0 <= i < sessions.len(),
        sessions[i].provider != provider,
    ensures
        all_cancelled(sessions, Some(provider), t)[i] == sessions[i],
{
}

// ---------------------------------------------------------------------------
// Credentials
// ---------------------------------------------------------------------------

/// A stored credential of the user's own application.
#[derive(Debug, PartialEq, Eq)]
pub struct DevAppCredential {
    pub expires_at: u64,
    pub scopes: Vec<String>,
    pub missing_scopes: Vec<String>,
}

/// A stored first-party credential.
#[derive(Debug, PartialEq, Eq)]
pub struct FirstPartyCredential {
    pub scopes: Vec<String>,
}

/// What is stored for a provider.
#[derive(Debug, PartialEq, Eq)]
pub struct CredentialInventory {
    pub dev_app: Option<DevAppCredential>,
    pub first_party: Option<FirstPartyCredential>,
}

/// A credential as clients see it.
#[derive(Debug, PartialEq, Eq)]
pub struct AuthCredentialStatus {
    pub kind: AuthMethod,
    pub present: bool,
    pub expires_at_ms: Option<i64>,
    pub scopes: Vec<String>,
    pub missing_scopes: Vec<String>,
}

/// A credential status as plain values.
pub struct CredentialModel {
    pub kind: AuthMethod,
    pub present: bool,
    pub expires_at_ms: Option<int>,
    pub scopes: Seq<Seq<char>>,
    pub missing_scopes: Seq<Seq<char>>,
}

impl View for AuthCredentialStatus {
    type V = CredentialModel;

    open spec fn view(&self) -> CredentialModel {
        CredentialModel {
            kind: self.kind,
            present: self.present,
            expires_at_ms: match self.expires_at_ms {
                Some(t) => Some(t as int),
                None => None,
            },
            scopes: texts(self.scopes@),
            missing_scopes: texts(self.missing_scopes@),
        }
    }
}

/// Seconds in milliseconds, as far as the type goes.
pub open spec fn seconds_as_ms(seconds: u64) -> int {
    if seconds * 1000 > i64::MAX {
        i64::MAX as int
    } else {
        seconds * 1000
    }
}

fn ms_of_seconds(seconds: u64) -> (r: i64)
    ensures
        r == seconds_as_ms(seconds),
{
    if seconds > 9_223_372_036_854_775u64 {
        i64::MAX
    } else {
        (seconds * 1000) as i64
    }
}

/// The status of both credentials that a provider can have.
pub open spec fn statuses(inventory: CredentialInventory) -> Seq<CredentialModel> {
    seq![
        match inventory.dev_app {
            Some(credential) => CredentialModel {
                kind: AuthMethod::DevApp,
                present: true,
                expires_at_ms: Some(seconds_as_ms(credential.expires_at)),
                scopes: texts(credential.scopes@),
                missing_scopes: texts(credential.missing_scopes@),
            },
            None => CredentialModel {
                kind: AuthMethod::DevApp,
                present: false,
                expires_at_ms: None,
                scopes: Seq::empty(),
                missing_scopes: Seq::empty(),
            },
        },
        match inventory.first_party {
            Some(credential) => CredentialModel {
                kind: AuthMethod::FirstParty,
                present: true,
                expires_at_ms: None,
                scopes: texts(credential.scopes@),
                missing_scopes: Seq::empty(),
            },
            None => CredentialModel {
                kind: AuthMethod::FirstParty,
                present: false,
                expires_at_ms: None,
                scopes: Seq::empty(),
                missing_scopes: Seq::empty(),
            },
        },
    ]
}

fn no_texts() -> (r: Vec<String>)
    ensures
        texts(r@) == Seq::<Seq<char>>::empty(),
{
    let r: Vec<String> = Vec::new();
    assert(texts(r@) =~= Seq::<Seq<char>>::empty());
    r
}

/// The status of both credentials that a provider can have.
pub fn credential_statuses(inventory: CredentialInventory) -> (r: Vec<AuthCredentialStatus>)
    ensures
        seq_view(r@) == statuses(inventory),
{
    let ghost expected = statuses(inventory);
    let dev_app = match inventory.dev_app {
        Some(credential) => AuthCredentialStatus {
            kind: AuthMethod::DevApp,
            present: true,
            expires_at_ms: Some(ms_of_seconds(credential.expires_at)),
            scopes: credential.scopes,
            missing_scopes: credential.missing_scopes,
        },
        None => AuthCredentialStatus {
            kind: AuthMethod::DevApp,
            present: false,
            expires_at_ms: None,
            scopes: no_texts(),
            missing_scopes: no_texts(),
        },
    };
    let first_party = match inventory.first_party {
        Some(credential) => AuthCredentialStatus {
            kind: AuthMethod::FirstParty,
            present: true,
            expires_at_ms: None,
            scopes: credential.scopes,
            missing_scopes: no_texts(),
        },
        None => AuthCredentialStatus {
            kind: AuthMethod::FirstParty,
            present: false,
            expires_at_ms: None,
            scopes: no_texts(),
            missing_scopes: no_texts(),
        },
    };
    let mut out: Vec<AuthCredentialStatus> = Vec::new();
    out.push(dev_app);
    out.push(first_party);
    assert(seq_view(out@) =~= expected);
    out
}

/// The scopes that a first-party credential is stored with.
pub fn credential_scopes(scope: &str) -> (r: Vec<String>)
    ensures
        texts(r@) == words(scope@),
{
    words_of(scope)
}

/// How a provider stands with its user.
#[derive(Debug, PartialEq, Eq)]
pub struct AuthStatus {
    pub provider: ProviderId,
    pub strategy: AuthStrategy,
    pub preferred_method: Option<AuthMethod>,
    pub auth_required: bool,
    pub auth_revoked: bool,
    pub credentials: Vec<AuthCredentialStatus>,
}

/// How a provider stands with its user. `inventory` is what is stored for a
/// provider that signs in, and is not looked at for one that does not.
pub fn auth_status(
    provider: ProviderId,
    strategy: AuthStrategy,
    preferred: AuthMethod,
    inventory: CredentialInventory,
    daemon_auth_required: bool,
    daemon_auth_revoked: bool,
) -> (r: AuthStatus)
    ensures
        r.provider == provider,
        r.strategy == strategy,
        match strategy {
            AuthStrategy::NoAuth => r.preferred_method is None && !r.auth_required
                && !r.auth_revoked && r.credentials@.len() == 0,
            AuthStrategy::SpotifyOauth => r.preferred_method == Some(preferred) && r.auth_required
                == daemon_auth_required && r.auth_revoked == daemon_auth_revoked && seq_view(
                r.credentials@,
            ) == statuses(inventory),
        },
{
    match strategy {
        AuthStrategy::NoAuth => AuthStatus {
            provider,
            strategy,
            preferred_method: None,
            auth_required: false,
            auth_revoked: false,
            credentials: Vec::new(),
        },
        AuthStrategy::SpotifyOauth => AuthStatus {
            provider,
            strategy,
            preferred_method: Some(preferred),
            auth_required: daemon_auth_required,
            auth_revoked: daemon_auth_revoked,
            credentials: credential_statuses(inventory),
        },
    }
}

/// Which credentials were removed.
#[derive(Clone, Copy, Debug, PartialEq, Eq, Structural)]
pub struct PurgedCredentials {
    pub removed_dev_app: bool,
    pub removed_first_party: bool,
    pub removed_librespot: bool,
}

/// What signing out did.
#[derive(Debug, PartialEq, Eq)]
pub struct LogoutResult {
    pub provider: ProviderId,
    pub purged: PurgedCredentials,
    pub auth_required: bool,
}

/// What signing out did. A provider that signs nobody in has nothing to
/// remove and asks for nothing afterwards.
pub fn logout_result(
    provider: ProviderId,
    strategy: AuthStrategy,
    purged: PurgedCredentials,
) -> (r: LogoutResult)
    ensures
        r.provider == provider,
        match strategy {
            AuthStrategy::NoAuth => !r.auth_required && r.purged == (PurgedCredentials {
                removed_dev_app: false,
                removed_first_party: false,
                removed_librespot: false,
            }),
            AuthStrategy::SpotifyOauth => r.auth_required && r.purged == purged,
        },
{
    match strategy {
        AuthStrategy::NoAuth => LogoutResult {
            provider,
            purged: PurgedCredentials {
                removed_dev_app: false,
                removed_first_party: false,
                removed_librespot: false,
            },
            auth_required: false,
        },
        AuthStrategy::SpotifyOauth => LogoutResult { provider, purged, auth_required: true },
    }
}

/// A session is over exactly when it is authorized, failed or cancelled; one
/// that starts, awaits its user or waits for the reply is not.
pub proof fn three_states_are_final(state: StateModel)
    ensures
        match state {
            StateModel::Starting => !state.terminal(),
            StateModel::AwaitingUser { .. } => !state.terminal(),
            StateModel::Waiting { .. } => !state.terminal(),
            StateModel::Authorized => state.terminal(),
            StateModel::Failed { .. } => state.terminal(),
            StateModel::Cancelled => state.terminal(),
        },
{
}

/// A session that starts is the one that was asked for, lives for five
/// minutes from now as far as the clock goes, and is active unless its state
/// is final from the start.
pub proof fn fresh_sessions_live_five_minutes(
    id: Seq<char>,
    provider: Seq<char>,
    method: Seq<char>,
    state: StateModel,
    now_ms: i64,
)
    ensures
        ({
            let s = fresh_session(id, provider, method, state, now_ms);
            &&& s.session_id == id && s.provider == provider && s.method == method
            &&& s.state == state && s.created_at_ms == now_ms
            &&& now_ms + 300_000 <= i64::MAX ==> s.expires_at_ms == now_ms + 300_000
            &&& now_ms + 300_000 > i64::MAX ==> s.expires_at_ms == i64::MAX
            &&& s.lifecycle == AuthLifecycle::Terminal <==> (state is Authorized || state is Failed
                || state is Cancelled)
            &&& s.lifecycle == AuthLifecycle::Active <==> (state is Starting
                || state is AwaitingUser || state is Waiting)
        }),
{
}

/// An active session shows what its sign-in reports: a browser that opens, one
/// that did not, and the wait for the reply once the user was sent there. A
/// report changes nothing else of it.
pub proof fn reports_are_shown(session: SessionModel, event: LoginProgress)
    requires
        session.lifecycle == AuthLifecycle::Active,
    ensures
        ({
            let after = session.progressed(event);
            &&& after == SessionModel { state: after.state, ..session }
            &&& match event {
                LoginProgress::OpeningBrowser { auth_url, redirect_uri } => after.state
                    == (StateModel::AwaitingUser {
                    authorization_url: auth_url@,
                    redirect_uri: redirect_uri@,
                    browser_error: None,
                }),
                LoginProgress::BrowserLaunchFailed { auth_url, redirect_uri, error } => after.state
                    == (StateModel::AwaitingUser {
                    authorization_url: auth_url@,
                    redirect_uri: redirect_uri@,
                    browser_error: Some(error@),
                }),
                LoginProgress::WaitingForCallback => {
                    &&& session.state is AwaitingUser ==> after.state == (StateModel::Waiting {
                        authorization_url: session.state->AwaitingUser_authorization_url,
                        redirect_uri: session.state->AwaitingUser_redirect_uri,
                        browser_error: session.state->AwaitingUser_browser_error,
                    })
                    &&& !(session.state is AwaitingUser) ==> after == session
                },
                LoginProgress::Saved => after == session,
            }
        }),
{
}

/// A claim, an end and the end of a commit keep whose session it is and when
/// it began. A claim moves an active session into its commit and nothing else.
/// An end and the end of a commit leave the session over, in the state that
/// was given, remembered for five minutes.
pub proof fn ends_are_taken_in(session: SessionModel, end: StateModel, now_ms: i64)
    ensures
        session.lifecycle == AuthLifecycle::Active ==> {
            let claimed = session.claimed();
            let ended = session.ended(end, now_ms);
            &&& claimed.lifecycle == AuthLifecycle::Committing
            &&& claimed == SessionModel { lifecycle: AuthLifecycle::Committing, ..session }
            &&& ended.lifecycle == AuthLifecycle::Terminal && ended.state == end
            &&& ended.session_id == session.session_id && ended.provider == session.provider
            &&& ended.method == session.method && ended.created_at_ms == session.created_at_ms
            &&& now_ms + 300_000 <= i64::MAX ==> ended.expires_at_ms == now_ms + 300_000
            &&& now_ms + 300_000 > i64::MAX ==> ended.expires_at_ms == i64::MAX
            &&& session.committed(end, now_ms) == session
        },
        session.lifecycle == AuthLifecycle::Committing ==> {
            let done = session.committed(end, now_ms);
            &&& done.lifecycle == AuthLifecycle::Terminal && done.state == end
            &&& done.session_id == session.session_id && done.provider == session.provider
            &&& done.method == session.method && done.created_at_ms == session.created_at_ms
            &&& now_ms + 300_000 <= i64::MAX ==> done.expires_at_ms == now_ms + 300_000
            &&& now_ms + 300_000 > i64::MAX ==> done.expires_at_ms == i64::MAX
            &&& session.ended(end, now_ms) == session
        },
{
}

/// A sign-in is authorized exactly when the credential was saved and taken
/// into use; any other end of a commit is a failure that says why.
pub proof fn only_a_reloaded_commit_authorizes(report: CommitReport)
    ensures
        state_of_commit(report) is Authorized <==> report is Reloaded,
        match report {
            CommitReport::Reloaded => true,
            CommitReport::ReloadFailed { message } => state_of_commit(report)
                == (StateModel::Failed { message: message@ }),
            CommitReport::SaveFailed { message } => state_of_commit(report)
                == (StateModel::Failed { message: message@ }),
            CommitReport::TaskFailed { error } => {
                &&& state_of_commit(report) is Failed
                &&& state_of_commit(report)->message == "auth persistence task failed: "@ + error@
            },
        },
{
}

/// Only sessions that are over and past their time are forgotten. All others
/// stay, in their order: `at` gives the place that each had.
pub proof fn remembered_sessions_keep_their_order(sessions: Seq<SessionModel>, t: i64) -> (at: Seq<
    int,
>)
    ensures
        at.len() == remembered(sessions, t).len(),
        forall|i: int|
            0 <= i < at.len() ==> 0 <= #[trigger] at[i] < sessions.len() && remembered(sessions, t)[i]
                == sessions[at[i]],
        forall|i: int, j: int| 0 <= i < j < at.len() ==> at[i] < at[j],
        forall|k: int|
            0 <= k < sessions.len() ==> (at.contains(k) <==> !(((#[trigger] sessions[k]).state
                is Authorized || sessions[k].state is Failed || sessions[k].state is Cancelled) && t
                > sessions[k].expires_at_ms)),
    decreases sessions.len(),
{
    reveal(Seq::filter);
    if sessions.len() == 0 {
        Seq::empty()
    } else {
        let init = sessions.drop_last();
        let n = sessions.len() - 1;
        let before = remembered_sessions_keep_their_order(init, t);
        let at = if sessions.last().forgotten(t) {
            before
        } else {
            before.push(n)
        };
        assert forall|k: int| 0 <= k < sessions.len() implies (at.contains(k) <==> !((
        (#[trigger] sessions[k]).state is Authorized || sessions[k].state is Failed
            || sessions[k].state is Cancelled) && t > sessions[k].expires_at_ms)) by {
            if k < n {
                assert(init[k] == sessions[k]);
                if before.contains(k) {
                    let i = before.index_of(k);
                    assert(at[i] == k);
                }
                if at.contains(k) {
                    let i = at.index_of(k);
                    assert(before[i] == k);
                }
            } else {
                if sessions.last().forgotten(t) {
                    if at.contains(n) {
                        let i = at.index_of(n);
                        assert(before[i] == n);
                    }
                } else {
                    assert(at[before.len() as int] == n);
                }
            }
        }
        at
    }
}

/// The place of a session is that of the first one with its id, and lies
/// beyond the table exactly when none has it.
pub proof fn sessions_are_found_by_id(sessions: Seq<SessionModel>, id: Seq<char>)
    ensures
        ({
            let p = place_of(sessions, id);
            &&& 0 <= p <= sessions.len()
            &&& p < sessions.len() ==> sessions[p].session_id == id
            &&& forall|k: int| 0 <= k < p ==> (#[trigger] sessions[k]).session_id != id
        }),
    decreases sessions.len(),
{
    if sessions.len() > 0 && sessions[0].session_id != id {
        let rest = sessions.skip(1);
        sessions_are_found_by_id(rest, id);
        assert forall|k: int| 0 <= k < place_of(sessions, id) implies (
        #[trigger] sessions[k]).session_id != id by {
            if k > 0 {
                assert(rest[k - 1] == sessions[k]);
            }
        }
    }
}

/// The session under way of a provider is the first that is its own and not
/// over; its place lies beyond the table exactly when there is none.
pub proof fn unfinished_sessions_are_found(sessions: Seq<SessionModel>, provider: Seq<char>)
    ensures
        ({
            let p = place_of_unfinished(sessions, provider);
            &&& 0 <= p <= sessions.len()
            &&& p < sessions.len() ==> sessions[p].provider == provider && (sessions[p].lifecycle
                == AuthLifecycle::Active || sessions[p].lifecycle == AuthLifecycle::Committing)
            &&& forall|k: int|
                0 <= k < p ==> (#[trigger] sessions[k]).provider != provider
                    || sessions[k].lifecycle == AuthLifecycle::Terminal
        }),
    decreases sessions.len(),
{
    if sessions.len() > 0 && !(sessions[0].provider == provider && sessions[0].unfinished()) {
        let rest = sessions.skip(1);
        unfinished_sessions_are_found(rest, provider);
        assert forall|k: int| 0 <= k < place_of_unfinished(sessions, provider) implies (
        #[trigger] sessions[k]).provider != provider || sessions[k].lifecycle
            == AuthLifecycle::Terminal by {
            if k > 0 {
                assert(rest[k - 1] == sessions[k]);
            }
        }
    }
}

/// Signing a provider out cancels its active sessions and nothing else: each
/// keeps its place and whose it is, and a commit that was claimed goes on.
pub proof fn logout_cancels_what_is_active(
    sessions: Seq<SessionModel>,
    provider: Option<Seq<char>>,
    now_ms: i64,
    i: int,
)
    requires
        0 <= i < sessions.len(),
    ensures
        all_cancelled(sessions, provider, now_ms).len() == sessions.len(),
        ({
            let before = sessions[i];
            let after = all_cancelled(sessions, provider, now_ms)[i];
            let meant = before.lifecycle == AuthLifecycle::Active && (provider is None
                || provider == Some(before.provider));
            &&& meant ==> after.state is Cancelled && after.lifecycle == AuthLifecycle::Terminal
                && after.session_id == before.session_id && after.provider == before.provider
                && after.method == before.method && after.created_at_ms == before.created_at_ms
            &&& !meant ==> after == before
        }),
{
}

/// The sign-ins to stop are those of the active sessions, of one provider or
/// of all, in the order of the table: `at` gives the place of each.
pub proof fn active_sign_ins_are_stopped(
    sessions: Seq<SessionModel>,
    provider: Option<Seq<char>>,
) -> (at: Seq<int>)
    ensures
        at.len() == active_ids(sessions, provider).len(),
        forall|i: int|
            0 <= i < at.len() ==> 0 <= #[trigger] at[i] < sessions.len() && active_ids(
                sessions,
                provider,
            )[i] == sessions[at[i]].session_id,
        forall|i: int, j: int| 0 <= i < j < at.len() ==> at[i] < at[j],
        forall|k: int|
            0 <= k < sessions.len() ==> (at.contains(k) <==> ((#[trigger] sessions[k]).lifecycle
                == AuthLifecycle::Active && (provider is None || provider == Some(
                sessions[k].provider,
            )))),
    decreases sessions.len(),
{
    if sessions.len() == 0 {
        Seq::empty()
    } else {
        let init = sessions.drop_last();
        let n = sessions.len() - 1;
        let before = active_sign_ins_are_stopped(init, provider);
        let last = sessions.last();
        let taken = last.lifecycle == AuthLifecycle::Active && (provider is None || provider->0
            == last.provider);
        let at = if taken {
            before.push(n)
        } else {
            before
        };
        assert forall|k: int| 0 <= k < sessions.len() implies (at.contains(k) <==> ((
        #[trigger] sessions[k]).lifecycle == AuthLifecycle::Active && (provider is None
            || provider == Some(sessions[k].provider)))) by {
            if k < n {
                assert(init[k] == sessions[k]);
                if before.contains(k) {
                    let i = before.index_of(k);
                    assert(at[i] == k);
                }
                if at.contains(k) {
                    let i = at.index_of(k);
                    assert(before[i] == k);
                }
            } else {
                if !taken {
                    if at.contains(n) {
                        let i = at.index_of(n);
                        assert(before[i] == n);
                    }
                } else {
                    assert(at[before.len() as int] == n);
                }
            }
        }
        at
    }
}

/// A method that is named is the one that is used; without a name the
/// preferred one is. The first-party one is to be had only with embedded
/// playback, however it was asked for.
pub proof fn named_methods_are_used(
    requested: Option<Seq<char>>,
    preferred: AuthMethod,
    embedded: bool,
)
    ensures
        ({
            let r = resolved_method(requested, preferred, embedded);
            let own = requested == Some("dev_app"@) || requested == Some("dev-app"@)
                || requested is None && preferred is DevApp;
            let first = requested == Some("first_party"@) || requested == Some("first-party"@)
                || requested is None && preferred is FirstParty;
            &&& r is Ok <==> own || first && embedded
            &&& r is Ok ==> (r->Ok_0 is DevApp <==> own)
            &&& r is Ok ==> (r->Ok_0 is FirstParty <==> first)
            &&& first && !embedded ==> r->Err_0 is Unsupported
            &&& requested is Some && !own && !first ==> r->Err_0 is InvalidInput
        }),
{
    reveal_strlit("dev_app");
    reveal_strlit("dev-app");
    reveal_strlit("first_party");
    reveal_strlit("first-party");
    assert("dev_app"@.len() == 7 && "dev-app"@.len() == 7);
    assert("first_party"@.len() == 11 && "first-party"@.len() == 11);
}

/// Both credentials are reported, the own application's first: each is present
/// exactly when it is stored, with its scopes, and only the own application's
/// one has an expiry, in milliseconds as far as the type goes.
pub proof fn both_credentials_are_reported(inventory: CredentialInventory)
    ensures
        statuses(inventory).len() == 2,
        ({
            let dev = statuses(inventory)[0];
            &&& dev.kind is DevApp && (dev.present <==> inventory.dev_app is Some)
            &&& inventory.dev_app matches Some(c) ==> {
                &&& dev.scopes == texts(c.scopes@) && dev.missing_scopes == texts(c.missing_scopes@)
                &&& dev.expires_at_ms is Some
                &&& c.expires_at * 1000 <= i64::MAX ==> dev.expires_at_ms == Some(
                    c.expires_at * 1000,
                )
                &&& c.expires_at * 1000 > i64::MAX ==> dev.expires_at_ms == Some(i64::MAX as int)
            }
            &&& inventory.dev_app is None ==> dev.expires_at_ms is None && dev.scopes.len() == 0
                && dev.missing_scopes.len() == 0
        }),
        ({
            let own = statuses(inventory)[1];
            &&& own.kind is FirstParty && (own.present <==> inventory.first_party is Some)
            &&& own.expires_at_ms is None && own.missing_scopes.len() == 0
            &&& inventory.first_party matches Some(c) ==> own.scopes == texts(c.scopes@)
            &&& inventory.first_party is None ==> own.scopes.len() == 0
        }),
{
}

/// A provider without sign-in takes no method, or the word for none; any other
/// is refused by its name.
pub proof fn providers_without_sign_in_take_no_method(
    requested: Option<Seq<char>>,
    provider: Seq<char>,
    method: Seq<char>,
)
    ensures
        is_no_method(requested) <==> requested is None || requested == Some("none"@),
        unused_method(provider, method) == (ProviderErrorModel::InvalidInput {
            field: "method"@,
            message: "provider `"@ + provider + "` does not use auth method `"@ + method + "`"@,
        }),
{
}

/// A second sign-in of a provider is refused with the one that is under way,
/// and a session that is not known with its id.
pub proof fn refused_sessions_are_named(
    provider: Seq<char>,
    existing: SessionModel,
    id: Seq<char>,
)
    ensures
        already_in_progress(provider, existing) == (ProviderErrorModel::InvalidInput {
            field: "auth_session"@,
            message: "authentication already in progress for provider `"@ + provider
                + "` method `"@ + existing.method + "` (session "@ + existing.session_id + ")"@,
        }),
        session_not_found(id) == (ProviderErrorModel::NotFound { resource: "auth-session:"@ + id }),
{
}

/// A look at the clock ends an active session that is past its time, and no
/// other; its sign-in is then to be stopped.
pub proof fn only_late_active_sessions_expire(session: SessionModel, now_ms: i64)
    requires
        session.consistent(),
    ensures
        session.expires(now_ms) <==> session.lifecycle == AuthLifecycle::Active && now_ms
            > session.expires_at_ms,
        !session.expires(now_ms) ==> session.aged(now_ms) == session,
        session.expires(now_ms) ==> {
            let after = session.aged(now_ms);
            &&& after.lifecycle == AuthLifecycle::Terminal
            &&& after.state == (StateModel::Failed { message: "authentication session expired"@ })
            &&& after.session_id == session.session_id && after.provider == session.provider
            &&& after.method == session.method && after.created_at_ms == session.created_at_ms
            &&& now_ms + 300_000 <= i64::MAX ==> after.expires_at_ms == now_ms + 300_000
        },
        session.forgotten(now_ms) <==> session.lifecycle == AuthLifecycle::Terminal && now_ms
            > session.expires_at_ms,
{
}

/// What each call on a session leaves and answers with is what is told of its
/// step.
pub proof fn session_calls_do_as_told()
    ensures
        forall|
            session_id: &str,
            provider: ProviderId,
            method: &str,
            state: AuthSessionState,
            now_ms: i64,
            answer: AuthSession,
        |
            #[trigger] call_ensures(
                new_session,
                (session_id, provider, method, state, now_ms),
                answer,
            ) ==> {
                &&& answer@ == fresh_session(session_id@, provider@, method@, state@, now_ms)
            },
        forall|report: CommitReport, answer: AuthSessionState|
            #[trigger] call_ensures(commit_state, (report,), answer) ==> {
                &&& answer@ == state_of_commit(report)
                &&& answer@.terminal()
            },
        forall|
            requested: Option<&str>,
            preferred: AuthMethod,
            embedded_playback: bool,
            answer: Result<AuthMethod, ProviderError>,
        |
            #[trigger] call_ensures(
                resolve_method,
                (requested, preferred, embedded_playback),
                answer,
            ) ==> {
                &&& method_view(answer) == resolved_method(opt_str(requested), preferred, embedded_playback)
            },
        forall|inventory: CredentialInventory, answer: Vec<AuthCredentialStatus>|
            #[trigger] call_ensures(credential_statuses, (inventory,), answer) ==> {
                &&& seq_view(answer@) == statuses(inventory)
            },
        forall|this: &mut AuthSession, state: AuthSessionState|
            #[trigger] call_ensures(AuthSession::set_active_state, (this, state), ()) ==> {
                &&& mut_ref_future(this)@ == mut_ref_current(this)@.with_active_state(state@)
            },
        forall|this: &mut AuthSession, event: LoginProgress|
            #[trigger] call_ensures(AuthSession::apply_progress, (this, event), ()) ==> {
                &&& mut_ref_future(this)@ == mut_ref_current(this)@.progressed(event)
            },
        forall|this: &mut AuthSession, answer: bool|
            #[trigger] call_ensures(AuthSession::claim_commit, (this,), answer) ==> {
                &&& answer == (mut_ref_current(this)@.lifecycle == AuthLifecycle::Active)
                &&& mut_ref_future(this)@ == mut_ref_current(this)@.claimed()
            },
        forall|this: &mut AuthSession, state: AuthSessionState, now_ms: i64, answer: bool|
            #[trigger] call_ensures(
                AuthSession::transition_active_to_terminal,
                (this, state, now_ms),
                answer,
            ) && (state@.terminal()) ==> {
                &&& answer == (mut_ref_current(this)@.lifecycle == AuthLifecycle::Active)
                &&& mut_ref_future(this)@ == mut_ref_current(this)@.ended(state@, now_ms)
            },
        forall|this: &mut AuthSession, state: AuthSessionState, now_ms: i64|
            #[trigger] call_ensures(AuthSession::finish_commit, (this, state, now_ms), ())
                && (state@.terminal()) ==> {
                &&& mut_ref_future(this)@ == mut_ref_current(this)@.committed(state@, now_ms)
            },
        forall|this: &mut AuthSession, now_ms: i64, answer: bool|
            #[trigger] call_ensures(AuthSession::expire_if_needed, (this, now_ms), answer) ==> {
                &&& answer == mut_ref_current(this)@.expires(now_ms)
                &&& mut_ref_future(this)@ == mut_ref_current(this)@.aged(now_ms)
            },
{
}

/// What each call on the table of sessions leaves and answers with is what is
/// told of its step.
pub proof fn table_calls_do_as_told()
    ensures
        forall|this: &AuthSessions, session_id: &str, answer: bool|
            #[trigger] call_ensures(AuthSessions::knows, (this, session_id), answer) ==> {
                &&& answer == !is_unused(this@, session_id@)
                &&& answer == (place_of(this@, session_id@) < this@.len())
            },
        forall|this: &mut AuthSessions, now_ms: i64|
            #[trigger] call_ensures(
                AuthSessions::prune_expired_terminals,
                (this, now_ms),
                (),
            ) && (mut_ref_current(this).wf()) ==> {
                &&& mut_ref_future(this)@ == remembered(mut_ref_current(this)@, now_ms)
                &&& mut_ref_future(this).wf()
            },
        forall|this: &AuthSessions, provider: &ProviderId, answer: Option<AuthSession>|
            #[trigger] call_ensures(AuthSessions::active_session, (this, provider), answer) ==> {
                &&& opt_view(answer) == if place_of_unfinished(this@, provider@) < this@.len() {
                    Some(this@[place_of_unfinished(this@, provider@)])
                } else {
                    None
                }
            },
        forall|this: &mut AuthSessions, session_id: &str, event: LoginProgress|
            #[trigger] call_ensures(
                AuthSessions::apply_progress,
                (this, session_id, event),
                (),
            ) && (mut_ref_current(this).wf()) ==> {
                &&& mut_ref_future(this).wf()
                &&& ({
                    let i = place_of(mut_ref_current(this)@, session_id@);
                    mut_ref_future(this)@ == if i < mut_ref_current(this)@.len() {
                        mut_ref_current(this)@.update(i, mut_ref_current(this)@[i].progressed(event))
                    } else {
                        mut_ref_current(this)@
                    }
                })
            },
        forall|this: &mut AuthSessions, session_id: &str, answer: bool|
            #[trigger] call_ensures(AuthSessions::claim_commit, (this, session_id), answer)
                && (mut_ref_current(this).wf()) ==> {
                &&& mut_ref_future(this).wf()
                &&& ({
                    let i = place_of(mut_ref_current(this)@, session_id@);
                    &&& answer == (i < mut_ref_current(this)@.len() && mut_ref_current(this)@[i].lifecycle == AuthLifecycle::Active)
                    &&& mut_ref_future(this)@ == if i < mut_ref_current(this)@.len() {
                        mut_ref_current(this)@.update(i, mut_ref_current(this)@[i].claimed())
                    } else {
                        mut_ref_current(this)@
                    }
                })
            },
        forall|this: &mut AuthSessions, session_id: &str, report: CommitReport, now_ms: i64|
            #[trigger] call_ensures(
                AuthSessions::finish_commit,
                (this, session_id, report, now_ms),
                (),
            ) && (mut_ref_current(this).wf()) ==> {
                &&& mut_ref_future(this).wf()
                &&& ({
                    let i = place_of(mut_ref_current(this)@, session_id@);
                    mut_ref_future(this)@ == if i < mut_ref_current(this)@.len() {
                        mut_ref_current(this)@.update(
                            i,
                            mut_ref_current(this)@[i].committed(state_of_commit(report), now_ms),
                        )
                    } else {
                        mut_ref_current(this)@
                    }
                })
            },
        forall|this: &mut AuthSessions, session_id: &str, message: &str, now_ms: i64|
            #[trigger] call_ensures(
                AuthSessions::authorization_failed,
                (this, session_id, message, now_ms),
                (),
            ) && (mut_ref_current(this).wf()) ==> {
                &&& mut_ref_future(this).wf()
                &&& ({
                    let i = place_of(mut_ref_current(this)@, session_id@);
                    mut_ref_future(this)@ == if i < mut_ref_current(this)@.len() {
                        mut_ref_current(this)@.update(
                            i,
                            mut_ref_current(this)@[i].ended(StateModel::Failed { message: message@ }, now_ms),
                        )
                    } else {
                        mut_ref_current(this)@
                    }
                })
            },
        forall|
            this: &mut AuthSessions,
            session_id: &str,
            now_ms: i64,
            answer: Result<SessionAnswer, ProviderError>,
        |
            #[trigger] call_ensures(AuthSessions::poll, (this, session_id, now_ms), answer)
                && (mut_ref_current(this).wf()) ==> {
                &&& mut_ref_future(this).wf()
                &&& ({
                    let known = remembered(mut_ref_current(this)@, now_ms);
                    let i = place_of(known, session_id@);
                    match answer {
                        Ok(answer) => {
                            &&& i < known.len()
                            &&& answer.session@ == known[i].aged(now_ms)
                            &&& answer.stop == known[i].expires(now_ms)
                            &&& mut_ref_future(this)@ == known.update(i, known[i].aged(now_ms))
                        },
                        Err(error) => i >= known.len() && error@ == session_not_found(session_id@)
                            && mut_ref_future(this)@ == known,
                    }
                })
            },
        forall|
            this: &mut AuthSessions,
            session_id: &str,
            now_ms: i64,
            answer: Result<SessionAnswer, ProviderError>,
        |
            #[trigger] call_ensures(
                AuthSessions::cancel,
                (this, session_id, now_ms),
                answer,
            ) && (mut_ref_current(this).wf()) ==> {
                &&& mut_ref_future(this).wf()
                &&& ({
                    let known = remembered(mut_ref_current(this)@, now_ms);
                    let i = place_of(known, session_id@);
                    match answer {
                        Ok(answer) => {
                            &&& i < known.len()
                            &&& answer.session@ == known[i].ended(StateModel::Cancelled, now_ms)
                            &&& answer.stop == (known[i].lifecycle == AuthLifecycle::Active)
                            &&& mut_ref_future(this)@ == known.update(
                                i,
                                known[i].ended(StateModel::Cancelled, now_ms),
                            )
                        },
                        Err(error) => i >= known.len() && error@ == session_not_found(session_id@)
                            && mut_ref_future(this)@ == known,
                    }
                })
            },
        forall|this: &mut AuthSessions, now_ms: i64, answer: Vec<String>|
            #[trigger] call_ensures(AuthSessions::cancel_for_reload, (this, now_ms), answer)
                && (mut_ref_current(this).wf()) ==> {
                &&& mut_ref_future(this).wf()
                &&& mut_ref_future(this)@ == all_cancelled(remembered(mut_ref_current(this)@, now_ms), None, now_ms)
                &&& texts(answer@) == active_ids(remembered(mut_ref_current(this)@, now_ms), None)
            },
        forall|this: &mut AuthSessions, provider: &ProviderId, now_ms: i64, answer: Vec<String>|
            #[trigger] call_ensures(
                AuthSessions::cancel_for_logout,
                (this, provider, now_ms),
                answer,
            ) && (mut_ref_current(this).wf()) ==> {
                &&& mut_ref_future(this).wf()
                &&& mut_ref_future(this)@ == all_cancelled(
                    remembered(mut_ref_current(this)@, now_ms),
                    Some(provider@),
                    now_ms,
                )
                &&& texts(answer@) == active_ids(remembered(mut_ref_current(this)@, now_ms), Some(provider@))
            },
{
}

/// A sign-in that is asked for is opened exactly where none of its provider is
/// under way, as a session of the given id that lives for five minutes; it then
/// stands last in the table, and nothing that is under way left it.
pub proof fn one_sign_in_at_a_time_is_opened(
    id: &str,
    provider: ProviderId,
    method: AuthMethod,
    now_ms: i64,
    k: int,
)
    requires
        now_ms + 300_000 <= i64::MAX,
    ensures
        forall|table: &mut AuthSessions, answer: Result<AuthSession, ProviderError>|
            #[trigger] call_ensures(
                AuthSessions::start_oauth,
                (table, id, provider, method, now_ms),
                answer,
            ) && mut_ref_current(table).wf() && is_unused(mut_ref_current(table)@, id@) && 0 <= k
                < mut_ref_current(table)@.len() && mut_ref_current(table)@[k].lifecycle
                != AuthLifecycle::Terminal ==> {
                let before = mut_ref_current(table)@;
                let after = mut_ref_future(table)@;
                &&& before[k].provider == provider@ ==> answer is Err
                &&& after.contains(before[k])
                &&& answer matches Ok(session) ==> after.last() == session@ && session@.session_id
                    == id@ && session@.provider == provider@ && session@.state is Starting
                    && session@.lifecycle == AuthLifecycle::Active && session@.created_at_ms
                    == now_ms && session@.expires_at_ms == now_ms + 300_000
            },
{
    assert forall|table: &mut AuthSessions, answer: Result<AuthSession, ProviderError>|
        #[trigger] call_ensures(
            AuthSessions::start_oauth,
            (table, id, provider, method, now_ms),
            answer,
        ) && mut_ref_current(table).wf() && is_unused(mut_ref_current(table)@, id@) && 0 <= k
            < mut_ref_current(table)@.len() && mut_ref_current(table)@[k].lifecycle
            != AuthLifecycle::Terminal implies {
        let before = mut_ref_current(table)@;
        let after = mut_ref_future(table)@;
        &&& before[k].provider == provider@ ==> answer is Err
        &&& after.contains(before[k])
        &&& answer matches Ok(session) ==> after.last() == session@ && session@.session_id == id@
            && session@.provider == provider@ && session@.state is Starting && session@.lifecycle
            == AuthLifecycle::Active && session@.created_at_ms == now_ms && session@.expires_at_ms
            == now_ms + 300_000
    } by {
        let before = mut_ref_current(table)@;
        let after = mut_ref_future(table)@;
        let known = remembered(before, now_ms);
        unfinished_sessions_are_remembered(before, k, now_ms);
        let m = known.index_of(before[k]);
        assert(known[m] == before[k]);
        assert(after[m] == before[k]);
    }
}

/// Without a request the environment decides on the method, and without that
/// what is stored; signing out asks for a new sign-in exactly where there is
/// one.
pub proof fn the_environment_comes_before_what_is_stored(
    env: Option<bool>,
    stored: bool,
    method: AuthMethod,
    provider: ProviderId,
    strategy: AuthStrategy,
    purged: PurgedCredentials,
    out: LogoutResult,
)
    requires
        call_ensures(preferred_method, (env, stored), method),
        call_ensures(logout_result, (provider, strategy, purged), out),
    ensures
        method is FirstParty <==> env == Some(true) || env is None && stored,
        method is DevApp <==> env == Some(false) || env is None && !stored,
        out.auth_required <==> strategy is SpotifyOauth,
        strategy is SpotifyOauth ==> out.purged == purged,
        strategy is NoAuth ==> !out.purged.removed_dev_app && !out.purged.removed_first_party
            && !out.purged.removed_librespot,
        out.provider == provider,
{
}

} // verus!
