//! Browser lifecycle state and the authentication check.
//!
//! The state records the browser instance, the task that keeps its DevTools
//! connection alive, the page used for NotebookLM and whether the stealth
//! script has been injected into that page. It is generic over those handles,
//! which the caller owns.

use vstd::prelude::*;

use crate::clock::now_micros;
use crate::library::views;
use crate::stealth::{stealth_arg_list, stealth_args};
use crate::error::NotebookLmError;
use crate::types::{auth_valid_at, AuthState};

verus! {

/// Browser state for NotebookLM: browser `B`, connection task `H`, page `P`.
pub struct NlmBrowserState<B, H, P> {
    browser: Option<B>,
    handler_task: Option<H>,
    page: Option<P>,
    stealth_injected: bool,
}

impl<B, H, P> NlmBrowserState<B, H, P> {
    /// The browser instance, if running.
    pub closed spec fn spec_browser(&self) -> Option<B> {
        self.browser
    }

    /// The connection task, if any.
    pub closed spec fn spec_handler_task(&self) -> Option<H> {
        self.handler_task
    }

    /// The active page, if any.
    pub closed spec fn spec_page(&self) -> Option<P> {
        self.page
    }

    /// Whether stealth scripts have been injected on the current page.
    pub closed spec fn spec_stealth_injected(&self) -> bool {
        self.stealth_injected
    }

    /// No browser, no task, no page.
    pub fn new() -> (r: Self)
        ensures
            r.spec_browser() is None,
            r.spec_handler_task() is None,
            r.spec_page() is None,
            !r.spec_stealth_injected(),
    {
        NlmBrowserState { browser: None, handler_task: None, page: None, stealth_injected: false }
    }

    /// Record a freshly launched browser and its connection task; any previous
    /// page is forgotten.
    pub fn launched(&mut self, browser: B, handler_task: H)
        ensures
            final(self).spec_browser() == Some(browser),
            final(self).spec_handler_task() == Some(handler_task),
            final(self).spec_page() is None,
            !final(self).spec_stealth_injected(),
    {
        self.browser = Some(browser);
        self.handler_task = Some(handler_task);
        self.page = None;
        self.stealth_injected = false;
    }

    /// The page already in use, if any.
    pub fn page(&self) -> (r: Option<&P>)
        ensures
            match r {
                Some(p) => self.spec_page() == Some(*p),
                None => self.spec_page() is None,
            },
    {
        match &self.page {
            Some(p) => Some(p),
            None => None,
        }
    }

    /// The browser in which to open a new page; an error when none is running.
    pub fn browser_for_new_page(&self) -> (r: Result<&B, NotebookLmError>)
        ensures
            match r {
                Ok(b) => self.spec_browser() == Some(*b),
                Err(e) => self.spec_browser() is None && e is BrowserNotRunning,
            },
    {
        match &self.browser {
            Some(b) => Ok(b),
            None => Err(NotebookLmError::BrowserNotRunning),
        }
    }

    /// Record a new page into which the stealth script has been injected.
    pub fn page_created(&mut self, page: P)
        ensures
            final(self).spec_page() == Some(page),
            final(self).spec_stealth_injected(),
            final(self).spec_browser() == old(self).spec_browser(),
            final(self).spec_handler_task() == old(self).spec_handler_task(),
    {
        self.page = Some(page);
        self.stealth_injected = true;
    }

    /// Close: drop the page, then the browser; the connection task is handed
    /// back so that it can be aborted.
    pub fn close(&mut self) -> (r: Option<H>)
        ensures
            r == old(self).spec_handler_task(),
            final(self).spec_browser() is None,
            final(self).spec_handler_task() is None,
            final(self).spec_page() is None,
            !final(self).spec_stealth_injected(),
    {
        self.page = None;
        self.stealth_injected = false;
        let handle = self.handler_task.take();
        self.browser = None;
        handle
    }
}

/// How Chrome is launched for NotebookLM.
#[derive(Debug, Clone)]
pub struct LaunchConfig {
    /// Whether the browser runs without a window.
    pub headless: bool,
    /// The persistent profile directory, set as the browser's user data
    /// directory (not as a raw argument, which the default would override).
    pub user_data_dir: String,
    /// Window width in pixels.
    pub window_width: u32,
    /// Window height in pixels.
    pub window_height: u32,
    /// Extra command-line arguments.
    pub args: Vec<String>,
}

/// The launch configuration for a profile: a visible window (Google sign-in
/// needs one), the persistent profile, a 1920×1080 window and the stealth
/// arguments.
pub fn launch_config(profile_dir: &str) -> (c: LaunchConfig)
    ensures
        !c.headless,
        c.user_data_dir@ == profile_dir@,
        c.window_width == 1920,
        c.window_height == 1080,
        views(c.args@) == stealth_arg_list(),
{
    LaunchConfig {
        headless: false,
        user_data_dir: String::from_str(profile_dir),
        window_width: 1920,
        window_height: 1080,
        args: stealth_args(),
    }
}

/// Check if the browser is currently running.
pub fn is_running<B, H, P>(state: &NlmBrowserState<B, H, P>) -> (r: bool)
    ensures
        r == state.spec_browser() is Some,
{
    state.browser.is_some()
}

/// An authenticated session at `now`: the auth state is valid at `now` and
/// the cookie store exists.
pub open spec fn authenticated_session_at(s: AuthState, cookie_store_exists: bool, now: i64) -> bool {
    auth_valid_at(s, now) && cookie_store_exists
}

/// Whether there is an authenticated session at time `now`: the persisted auth
/// state is valid at `now` and Chrome's cookie store exists.
pub fn has_auth_cookies_at(auth_state: &AuthState, cookie_store_exists: bool, now: i64) -> (r:
    bool)
    ensures
        r == authenticated_session_at(*auth_state, cookie_store_exists, now),
{
    auth_state.is_valid_at(now) && cookie_store_exists
}

/// Whether there is an authenticated session: the persisted auth state is
/// still valid and Chrome's cookie store exists.
pub fn has_auth_cookies(auth_state: &AuthState, cookie_store_exists: bool) -> (r: bool)
    ensures
        exists|now: i64|
            now >= 0 && r == #[trigger] authenticated_session_at(*auth_state, cookie_store_exists, now),
        r ==> cookie_store_exists && auth_state.authenticated && auth_state.last_authenticated is Some,
        !auth_state.authenticated ==> !r,
        auth_state.last_authenticated is None ==> !r,
{
    let now = now_micros();
    let r = has_auth_cookies_at(auth_state, cookie_store_exists, now);
    assert(now >= 0 && r == authenticated_session_at(*auth_state, cookie_store_exists, now));
    r
}

/// The auth state to persist after a successful authentication, stamped with
/// the current time.
pub fn auth_success_state(email: Option<String>) -> (r: AuthState)
    ensures
        r.authenticated,
        r.last_authenticated matches Some(t) && t >= 0,
        r.account_email == email,
{
    let now = now_micros();
    AuthState::succeeded_at(email, now)
}

} // verus!
