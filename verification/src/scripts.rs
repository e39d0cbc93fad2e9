//! JavaScript evaluated in the NotebookLM page: response counting and
//! extraction, rate-limit detection and element visibility.

use vstd::prelude::*;

use crate::selectors::{
    ALERT_ROLE, CHAT_INPUT, CHAT_INPUT_FALLBACK, ERROR_MESSAGE, RESPONSE_CONTAINER, RESPONSE_TEXT,
    TOAST_ERROR,
};

verus! {

/// The decimal digits of `n`, most significant first, without leading zeros.
pub open spec fn decimal(n: nat) -> Seq<char>
    decreases n,
{
    if n < 10 {
        seq![(48 + n) as char]
    } else {
        decimal(n / 10).push((48 + n % 10) as char)
    }
}

/// The decimal rendering of `n` (as `Display` renders an unsigned integer).
pub fn decimal_string(n: usize) -> (r: String)
    ensures
        r@ == decimal(n as nat),
    decreases n,
{
    if n < 10 {
        let mut s = String::new();
        s.push(((48 + n) as u8) as char);
        s
    } else {
        let mut s = decimal_string(n / 10);
        s.push(((48 + n % 10) as u8) as char);
        s
    }
}

/// `a + b`.
fn concat(a: String, b: &str) -> (r: String)
    ensures
        r@ == a@ + b@,
{
    let mut r = a;
    r.append(b);
    r
}

/// Script counting the response containers on the page.
pub fn count_responses_script() -> (r: String)
    ensures
        r@ == "document.querySelectorAll('"@ + RESPONSE_CONTAINER@ + "').length"@,
{
    let r = concat(String::from_str("document.querySelectorAll('"), RESPONSE_CONTAINER);
    concat(r, "').length")
}

/// Script returning the trimmed text of the latest response container when
/// there are more than `pre_count` containers, and `''` otherwise.
pub fn latest_response_script(pre_count: usize) -> (r: String)
    ensures
        r@ == "\n        (() => {\n            const containers = document.querySelectorAll('"@
            + RESPONSE_CONTAINER@ + "');\n            if (containers.length <= "@ + decimal(
            pre_count as nat,
        ) + ") return '';\n            const latest = containers[containers.length - 1];\n            const textEl = latest.querySelector('"@
            + RESPONSE_TEXT@
            + "');\n            return textEl ? textEl.textContent.trim() : '';\n        })()\n        "@,
{
    let r = concat(
        String::from_str(
            "\n        (() => {\n            const containers = document.querySelectorAll('",
        ),
        RESPONSE_CONTAINER,
    );
    let r = concat(r, "');\n            if (containers.length <= ");
    let n = decimal_string(pre_count);
    let r = concat(r, n.as_str());
    let r = concat(
        r,
        ") return '';\n            const latest = containers[containers.length - 1];\n            const textEl = latest.querySelector('",
    );
    let r = concat(r, RESPONSE_TEXT);
    concat(r, "');\n            return textEl ? textEl.textContent.trim() : '';\n        })()\n        ")
}

/// Script reporting a rate limit: an error, alert or toast element mentions a
/// rate limit, an exhausted quota or a daily limit, or the chat input is disabled.
pub fn rate_limit_script() -> (r: String)
    ensures
        r@ == "\n        (() => {\n            // Check error-related elements\n            const errorEls = document.querySelectorAll('"@
            + ERROR_MESSAGE@ + ", "@ + ALERT_ROLE@ + ", "@ + TOAST_ERROR@
            + "');\n            for (const el of errorEls) {\n                const text = (el.textContent || '').toLowerCase();\n                if (text.includes('rate limit') || text.includes('quota exhausted') || text.includes('daily limit')) {\n                    return true;\n                }\n            }\n            // Check if textarea is disabled (signals quota depletion)\n            const input = document.querySelector('"@
            + CHAT_INPUT@ + "') || document.querySelector('"@ + CHAT_INPUT_FALLBACK@
            + "');\n            if (input && input.disabled) return true;\n            return false;\n        })()\n        "@,
{
    let r = concat(
        String::from_str(
            "\n        (() => {\n            // Check error-related elements\n            const errorEls = document.querySelectorAll('",
        ),
        ERROR_MESSAGE,
    );
    let r = concat(r, ", ");
    let r = concat(r, ALERT_ROLE);
    let r = concat(r, ", ");
    let r = concat(r, TOAST_ERROR);
    let r = concat(
        r,
        "');\n            for (const el of errorEls) {\n                const text = (el.textContent || '').toLowerCase();\n                if (text.includes('rate limit') || text.includes('quota exhausted') || text.includes('daily limit')) {\n                    return true;\n                }\n            }\n            // Check if textarea is disabled (signals quota depletion)\n            const input = document.querySelector('",
    );
    let r = concat(r, CHAT_INPUT);
    let r = concat(r, "') || document.querySelector('");
    let r = concat(r, CHAT_INPUT_FALLBACK);
    concat(r, "');\n            if (input && input.disabled) return true;\n            return false;\n        })()\n        ")
}

/// Script telling whether the first element matching `selector` is displayed.
pub fn element_visible_script(selector: &str) -> (r: String)
    ensures
        r@ == "\n        (() => {\n            const el = document.querySelector('"@ + selector@
            + "');\n            if (!el) return false;\n            const style = window.getComputedStyle(el);\n            return style.display !== 'none' && style.visibility !== 'hidden' && el.offsetParent !== null;\n        })()\n        "@,
{
    let r = concat(
        String::from_str("\n        (() => {\n            const el = document.querySelector('"),
        selector,
    );
    concat(
        r,
        "');\n            if (!el) return false;\n            const style = window.getComputedStyle(el);\n            return style.display !== 'none' && style.visibility !== 'hidden' && el.offsetParent !== null;\n        })()\n        ",
    )
}

} // verus!
