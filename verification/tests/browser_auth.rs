use nexcore_notebooklm::browser::{has_auth_cookies_at, launch_config};
use nexcore_notebooklm::stealth::stealth_args;
use nexcore_notebooklm::auth::{browser_opened_result, NOTEBOOKLM_URL};
use nexcore_notebooklm::browser::{auth_success_state, has_auth_cookies, is_running, NlmBrowserState};
use nexcore_notebooklm::clock::{now_micros, num_days, signed_duration_since};
use nexcore_notebooklm::types::AuthState;
use nexcore_notebooklm::NotebookLmError;

const DAY: i64 = 86_400_000_000;

#[test]
fn browser_state_lifecycle() {
    let mut s: NlmBrowserState<&str, u32, String> = NlmBrowserState::new();
    assert!(!is_running(&s));
    assert!(matches!(s.browser_for_new_page(), Err(NotebookLmError::BrowserNotRunning)));
    s.launched("chrome", 7);
    assert!(is_running(&s));
    assert!(s.page().is_none());
    assert_eq!(s.browser_for_new_page().ok().copied(), Some("chrome"));
    s.page_created("page".to_string());
    assert_eq!(s.page().map(|p| p.as_str()), Some("page"));
    assert_eq!(s.close(), Some(7));
    assert!(!is_running(&s));
    assert!(s.page().is_none());
    assert_eq!(s.close(), None);
}

#[test]
fn clock_durations() {
    assert_eq!(signed_duration_since(5_000_000, 2_000_000), 3_000_000);
    assert_eq!(signed_duration_since(i64::MAX, -1), i64::MAX);
    assert_eq!(signed_duration_since(i64::MIN, 1), i64::MIN);
    assert_eq!(num_days(2 * DAY + 5), 2);
    assert_eq!(num_days(-(DAY + DAY / 24)), -1);
    assert_eq!(num_days(DAY - 1), 0);
    assert!(now_micros() > 0);
}

#[test]
fn auth_validity_window() {
    let s = AuthState::succeeded_at(Some("a@b.c".to_string()), 0);
    assert!(s.is_valid_at(0));
    assert!(s.is_valid_at(29 * DAY));
    assert!(s.is_valid_at(30 * DAY - 1));
    assert!(!s.is_valid_at(30 * DAY));
    assert!(s.is_valid_at(-100 * DAY));
    let d = AuthState::default();
    assert!(!d.is_valid_at(0));
    let no_time = AuthState { authenticated: true, last_authenticated: None, account_email: None };
    assert!(!no_time.is_valid_at(0));
}

#[test]
fn auth_validity_uses_current_time() {
    let recent = auth_success_state(None);
    assert!(recent.authenticated);
    assert!(recent.is_valid());
    let old = AuthState::succeeded_at(None, 0);
    assert!(!old.is_valid());
}

#[test]
fn auth_cookie_check() {
    let recent = auth_success_state(Some("me@example.com".to_string()));
    assert_eq!(recent.account_email.as_deref(), Some("me@example.com"));
    assert!(has_auth_cookies(&recent, true));
    assert!(!has_auth_cookies(&recent, false));
    assert!(!has_auth_cookies(&AuthState::default(), true));
}

#[test]
fn opened_browser_result() {
    let r = browser_opened_result();
    assert!(r.browser_opened);
    assert_eq!(r.url, NOTEBOOKLM_URL);
    assert_eq!(r.url, "https://notebooklm.google.com");
    assert!(r.message.starts_with("Browser opened at NotebookLM."));
}

#[test]
fn auth_cookie_check_at_given_time() {
    let s = AuthState::succeeded_at(None, 10 * DAY);
    assert!(has_auth_cookies_at(&s, true, 20 * DAY));
    assert!(!has_auth_cookies_at(&s, false, 20 * DAY));
    assert!(!has_auth_cookies_at(&s, true, 40 * DAY));
}

#[test]
fn launch_configuration() {
    let c = launch_config("/data/chrome_profile");
    assert!(!c.headless);
    assert_eq!(c.user_data_dir, "/data/chrome_profile");
    assert_eq!((c.window_width, c.window_height), (1920, 1080));
    assert_eq!(c.args, stealth_args());
}
