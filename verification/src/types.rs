//! Domain types: notebooks, sessions, authentication state, statistics.

use vstd::prelude::*;

use crate::clock::{now_micros, num_days, saturating_diff, signed_duration_since, span_days};

verus! {

/// A notebook in the library.
#[derive(Debug, Clone)]
pub struct Notebook {
    /// Unique identifier (user-provided or auto-generated).
    pub id: String,
    /// Display name.
    pub name: String,
    /// NotebookLM URL.
    pub url: String,
    /// Description of the notebook's content.
    pub description: String,
    /// Topics covered.
    pub topics: Vec<String>,
    /// Types of content (e.g., "documentation", "examples").
    pub content_types: Vec<String>,
    /// When to use this notebook.
    pub use_cases: Vec<String>,
    /// Organization tags.
    pub tags: Vec<String>,
    /// When added to library (microseconds since the epoch).
    pub created_at: i64,
    /// Last modified (microseconds since the epoch).
    pub updated_at: i64,
}

/// A chat session with a notebook.
#[derive(Debug, Clone)]
pub struct Session {
    /// Session ID.
    pub id: String,
    /// Notebook ID this session is for.
    pub notebook_id: String,
    /// Number of messages exchanged.
    pub message_count: u32,
    /// When the session was created (microseconds since the epoch).
    pub created_at: i64,
    /// Last activity time (microseconds since the epoch).
    pub last_activity: i64,
}

/// Health status of the NotebookLM subsystem.
#[derive(Debug, Clone)]
pub struct HealthStatus {
    /// Whether browser is running.
    pub browser_running: bool,
    /// Whether authenticated with Google.
    pub authenticated: bool,
    /// Number of notebooks in library.
    pub library_size: usize,
    /// Number of active sessions.
    pub active_sessions: usize,
    /// Data directory path.
    pub data_dir: String,
}

/// Persistent auth state: tracks when authentication last succeeded.
#[derive(Debug, Clone)]
pub struct AuthState {
    /// Whether the last auth attempt was successful.
    pub authenticated: bool,
    /// When auth last succeeded (microseconds since the epoch).
    pub last_authenticated: Option<i64>,
    /// Google account email (if detected).
    pub account_email: Option<String>,
}

/// Library statistics.
#[derive(Debug, Clone)]
pub struct LibraryStats {
    /// Total notebooks.
    pub total_notebooks: usize,
    /// Total unique topics across all notebooks.
    pub total_topics: usize,
    /// Total unique tags.
    pub total_tags: usize,
    /// Name of the most recently added notebook.
    pub most_recent: Option<String>,
}

/// Authentication is valid at `now` when the last attempt succeeded and fewer
/// than 30 whole days separate its time from `now`.
pub open spec fn auth_valid_at(s: AuthState, now: i64) -> bool {
    &&& s.authenticated
    &&& s.last_authenticated matches Some(ts) && span_days(saturating_diff(now as int, ts as int)) < 30
}

impl Default for AuthState {
    fn default() -> (r: Self)
        ensures
            !r.authenticated,
            r.last_authenticated is None,
            r.account_email is None,
    {
        AuthState { authenticated: false, last_authenticated: None, account_email: None }
    }
}

impl AuthState {
    /// The state recorded after a successful authentication at `now`.
    pub fn succeeded_at(email: Option<String>, now: i64) -> (r: AuthState)
        ensures
            r.authenticated,
            r.last_authenticated == Some(now),
            r.account_email == email,
    {
        AuthState { authenticated: true, last_authenticated: Some(now), account_email: email }
    }

    /// Auth is valid at `now` if authenticated within the 30 days before it.
    pub fn is_valid_at(&self, now: i64) -> (r: bool)
        ensures
            r == auth_valid_at(*self, now),
    {
        if !self.authenticated {
            return false;
        }
        match self.last_authenticated {
            Some(ts) => {
                let age = signed_duration_since(now, ts);
                num_days(age) < 30
            },
            None => false,
        }
    }

    /// Auth is considered valid if authenticated within the last 30 days.
    pub fn is_valid(&self) -> (r: bool)
        ensures
            exists|now: i64| now >= 0 && r == #[trigger] auth_valid_at(*self, now),
            r ==> self.authenticated && self.last_authenticated is Some,
    {
        let now = now_micros();
        let r = self.is_valid_at(now);
        assert(r == auth_valid_at(*self, now));
        r
    }
}

/// Thirty days, in microseconds.
pub open spec fn thirty_days_micros() -> int {
    2_592_000_000_000int
}

/// A successful authentication is valid at the moment it is recorded.
pub proof fn law_fresh_auth_is_valid(s: AuthState, t: i64)
    requires
        s.authenticated,
        s.last_authenticated == Some(t),
    ensures
        auth_valid_at(s, t),
{
}

/// An authentication recorded at `ts` is valid at a later `now` exactly when
/// less than thirty days have passed.
pub proof fn law_auth_valid_within_30_days(s: AuthState, now: i64)
    requires
        s.authenticated,
        s.last_authenticated matches Some(ts) && ts <= now,
    ensures
        auth_valid_at(s, now) == (now - s.last_authenticated->0 < thirty_days_micros()),
{
    let ts = s.last_authenticated->0;
    let d = saturating_diff(now as int, ts as int);
    assert(d >= 0);
    assert(span_days(d) == (d / 1_000_000) / 86_400);
    assert(((d / 1_000_000) / 86_400 < 30) == (d < 2_592_000_000_000)) by (nonlinear_arith)
        requires
            d >= 0,
    ;
}

/// Validity only expires: valid at a later time means valid at every earlier
/// time since the authentication.
pub proof fn law_auth_validity_expires_once(s: AuthState, earlier: i64, later: i64)
    requires
        s.last_authenticated matches Some(ts) && ts <= earlier,
        earlier <= later,
        auth_valid_at(s, later),
    ensures
        auth_valid_at(s, earlier),
{
    law_auth_valid_within_30_days(s, earlier);
    law_auth_valid_within_30_days(s, later);
}

} // verus!
