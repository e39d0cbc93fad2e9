use nexcore_notebooklm::scripts::{
    count_responses_script, decimal_string, element_visible_script, latest_response_script,
    rate_limit_script,
};

#[test]
fn decimal_rendering() {
    for n in [0usize, 7, 10, 42, 1000, 987654321, usize::MAX] {
        assert_eq!(decimal_string(n), n.to_string());
    }
}

#[test]
fn count_script() {
    assert_eq!(count_responses_script(), "document.querySelectorAll('.to-user-container').length");
}

#[test]
fn latest_response_script_embeds_count_and_selectors() {
    let expected = format!(
        r#"
        (() => {{
            const containers = document.querySelectorAll('{container}');
            if (containers.length <= {pre_count}) return '';
            const latest = containers[containers.length - 1];
            const textEl = latest.querySelector('{text_sel}');
            return textEl ? textEl.textContent.trim() : '';
        }})()
        "#,
        container = ".to-user-container",
        pre_count = 12,
        text_sel = ".message-text-content",
    );
    assert_eq!(latest_response_script(12), expected);
}

#[test]
fn rate_limit_script_mentions_all_selectors() {
    let s = rate_limit_script();
    assert!(s.contains("document.querySelectorAll('.error-message, [role='alert'], .toast-error')"));
    assert!(s.contains("text.includes('quota exhausted')"));
    assert!(s.contains("document.querySelector('textarea.query-box-input') || document.querySelector('textarea[aria-label=\"Feld für Anfragen\"]')"));
}

#[test]
fn visibility_script() {
    let s = element_visible_script("div.thinking-message");
    assert!(s.contains("document.querySelector('div.thinking-message')"));
    assert!(s.contains("el.offsetParent !== null"));
}
