//! DOM selector constants for NotebookLM, and timing constants of the query flow.

use vstd::prelude::*;

verus! {

/// Chat input textarea (primary).
pub const CHAT_INPUT: &'static str = "textarea.query-box-input";

/// Chat input textarea (fallback — German localization).
pub const CHAT_INPUT_FALLBACK: &'static str = "textarea[aria-label=\"Feld für Anfragen\"]";

/// Container for assistant (bot) responses.
pub const RESPONSE_CONTAINER: &'static str = ".to-user-container";

/// Text content within a response container.
pub const RESPONSE_TEXT: &'static str = ".message-text-content";

/// Full selector: response text within response container.
pub const RESPONSE_FULL: &'static str = ".to-user-container .message-text-content";

/// Thinking indicator (visible while NotebookLM processes a query).
pub const THINKING_INDICATOR: &'static str = "div.thinking-message";

/// Error message container.
pub const ERROR_MESSAGE: &'static str = ".error-message";

/// Alert role element.
pub const ALERT_ROLE: &'static str = "[role='alert']";

/// Toast error notification.
pub const TOAST_ERROR: &'static str = ".toast-error";

/// Google account email input.
pub const GOOGLE_EMAIL_INPUT: &'static str = "input[type='email']";

/// Google password input.
pub const GOOGLE_PASSWORD_INPUT: &'static str = "input[type='password']";

/// Google "Next" button (multiple contexts).
pub const GOOGLE_NEXT_BUTTON: &'static str = "#identifierNext button, #passwordNext button";

/// Max wait for chat interface to become ready (ms).
pub const READY_TIMEOUT_MS: u64 = 10_000;

/// Fallback timeout for alternative selectors (ms).
pub const FALLBACK_TIMEOUT_MS: u64 = 5_000;

/// Response polling interval (ms).
pub const POLL_INTERVAL_MS: u64 = 1_000;

/// Max wait for response (ms).
pub const RESPONSE_TIMEOUT_MS: u64 = 120_000;

/// Consecutive identical polls needed to confirm response is complete.
pub const STABILITY_POLLS: usize = 3;

/// Post-navigation stabilization delay range (ms), lower bound.
pub const NAV_SETTLE_MIN_MS: u64 = 2_000;

/// Post-navigation stabilization delay range (ms), upper bound.
pub const NAV_SETTLE_MAX_MS: u64 = 3_000;

/// Delay between typing completion and submit (ms), lower bound.
pub const PRE_SUBMIT_MIN_MS: u64 = 500;

/// Delay between typing completion and submit (ms), upper bound.
pub const PRE_SUBMIT_MAX_MS: u64 = 1_000;

} // verus!
