//! Authentication results. The sign-in itself happens in the browser, where the
//! user logs in and the persistent profile keeps the cookies.

use vstd::prelude::*;

verus! {

/// NotebookLM sign-in URL.
pub const NOTEBOOKLM_URL: &'static str = "https://notebooklm.google.com";

/// The message reported once the browser has been opened for sign-in.
pub const BROWSER_OPENED_MESSAGE: &'static str = "Browser opened at NotebookLM. Complete Google sign-in in the browser window. Cookies will be saved automatically to the persistent Chrome profile.";

/// Result of an auth operation.
#[derive(Debug, Clone)]
pub struct AuthResult {
    /// Whether the browser was successfully opened.
    pub browser_opened: bool,
    /// URL the browser was navigated to.
    pub url: String,
    /// Human-readable status message.
    pub message: String,
}

/// The result of opening the browser at NotebookLM for the user to sign in.
pub fn browser_opened_result() -> (r: AuthResult)
    ensures
        r.browser_opened,
        r.url@ == NOTEBOOKLM_URL@,
        r.message@ == BROWSER_OPENED_MESSAGE@,
{
    AuthResult {
        browser_opened: true,
        url: String::from_str(NOTEBOOKLM_URL),
        message: String::from_str(BROWSER_OPENED_MESSAGE),
    }
}

} // verus!
