use nexcore_notebooklm::notebook::{
    chat_not_ready_error, delay_from_entropy, normalize_text, random_delay, ready_timed_out, ready_watch,
    PollStep, ReadyPhase, ResponsePoller,
};
use nexcore_notebooklm::selectors::{NAV_SETTLE_MAX_MS, NAV_SETTLE_MIN_MS, STABILITY_POLLS};
use nexcore_notebooklm::stealth::{stealth_args, stealth_js};
use nexcore_notebooklm::NotebookLmError;

#[test]
fn normalize_collapses_and_lowercases() {
    assert_eq!(normalize_text("  What IS\tRust?\n"), "what is rust?");
    assert_eq!(normalize_text(""), "");
}

#[test]
fn delay_formula() {
    assert_eq!(delay_from_entropy(2000, 3000, 1500), 2499);
    assert_eq!(delay_from_entropy(2000, 3000, 1001), 2000);
    assert_eq!(delay_from_entropy(500, 500, 12345), 500);
    assert_eq!(delay_from_entropy(9, 3, 7), 9);
}

#[test]
fn random_delay_in_range() {
    for _ in 0..20 {
        let d = random_delay(NAV_SETTLE_MIN_MS, NAV_SETTLE_MAX_MS);
        assert!((NAV_SETTLE_MIN_MS..=NAV_SETTLE_MAX_MS).contains(&d));
    }
    assert_eq!(random_delay(7, 7), 7);
}

fn done(step: PollStep) -> Option<String> {
    match step {
        PollStep::Done(t) => Some(t),
        PollStep::Continue => None,
    }
}

#[test]
fn poller_waits_for_stable_text() {
    assert_eq!(STABILITY_POLLS, 3);
    let mut p = ResponsePoller::new("What is Rust?");
    assert_eq!(done(p.observe(true, String::new())), None);
    assert_eq!(done(p.observe(false, "Rust is".to_string())), None);
    assert_eq!(done(p.observe(false, "Rust is a language".to_string())), None);
    assert_eq!(done(p.observe(false, "Rust is a language".to_string())), None);
    assert_eq!(
        done(p.observe(false, "Rust is a language".to_string())),
        Some("Rust is a language".to_string())
    );
}

#[test]
fn poller_resets_on_thinking_and_echo() {
    let mut p = ResponsePoller::new("What is Rust?");
    assert_eq!(done(p.observe(false, "answer".to_string())), None);
    assert_eq!(done(p.observe(false, "answer".to_string())), None);
    assert_eq!(done(p.observe(true, "answer".to_string())), None);
    assert_eq!(done(p.observe(false, "answer".to_string())), None);
    assert_eq!(done(p.observe(false, "  what is   RUST? ".to_string())), None);
    assert_eq!(done(p.observe(false, "answer".to_string())), None);
    assert_eq!(done(p.observe(false, String::new())), None);
    assert_eq!(done(p.observe(false, "answer".to_string())), None);
    assert_eq!(done(p.observe(false, "answer".to_string())), None);
    assert_eq!(done(p.observe(false, "answer".to_string())), Some("answer".to_string()));
}

#[test]
fn poller_timeout_outcomes() {
    let p = ResponsePoller::new("q");
    match p.finish() {
        Err(NotebookLmError::Other(m)) => assert_eq!(m, "no response received within timeout"),
        other => panic!("unexpected: {other:?}"),
    }
    let mut p = ResponsePoller::new("q");
    let _ = p.observe(false, "partial".to_string());
    assert_eq!(p.finish().ok().as_deref(), Some("partial"));
}

#[test]
fn stealth_arguments_and_script() {
    let args = stealth_args();
    assert_eq!(args.len(), 10);
    assert_eq!(args[0], "--disable-blink-features=AutomationControlled");
    assert_eq!(args[9], "--disable-dev-shm-usage");
    assert!(!args.iter().any(|a| a.starts_with("--user-data-dir")));
    assert!(stealth_js().contains("navigator, 'webdriver'"));
}

#[test]
fn chat_ready_phases() {
    let p = ReadyPhase::Primary;
    assert_eq!(ready_watch(&p), Some(("textarea.query-box-input", 10_000)));
    let p = ready_timed_out(p);
    assert_eq!(ready_watch(&p), Some(("textarea[aria-label=\"Feld für Anfragen\"]", 5_000)));
    let p = ready_timed_out(p);
    assert_eq!(ready_watch(&p), None);
    let p = ready_timed_out(p);
    assert!(matches!(p, ReadyPhase::GaveUp));
    match chat_not_ready_error() {
        NotebookLmError::Other(m) => assert_eq!(m, "chat interface did not become ready within timeout"),
        other => panic!("unexpected: {other:?}"),
    }
}

#[test]
fn finish_never_returns_an_echo() {
    let mut p = ResponsePoller::new("What is Rust?");
    let _ = p.observe(false, "what is rust?".to_string());
    assert!(p.finish().is_err());
    let _ = p.observe(false, "Rust is a language".to_string());
    let _ = p.observe(false, "  WHAT is rust? ".to_string());
    assert_eq!(p.finish().ok().as_deref(), Some("Rust is a language"));
}
