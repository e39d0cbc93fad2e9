//! Chrome launch arguments and the script injected into every document so that
//! the automated browser is not detected.

use vstd::prelude::*;

use crate::library::views;

verus! {

/// The launch arguments, in order. `--user-data-dir` is not among them: it is
/// set through the browser configuration, which would otherwise override it.
pub open spec fn stealth_arg_list() -> Seq<Seq<char>> {
    seq![
        "--disable-blink-features=AutomationControlled"@,
        "--no-first-run"@,
        "--disable-default-apps"@,
        "--disable-infobars"@,
        "--disable-extensions"@,
        "--window-size=1920,1080"@,
        "--disable-background-timer-throttling"@,
        "--disable-renderer-backgrounding"@,
        "--no-sandbox"@,
        "--disable-dev-shm-usage"@,
    ]
}

/// Chrome launch arguments for stealth operation.
pub fn stealth_args() -> (r: Vec<String>)
    ensures
        views(r@) == stealth_arg_list(),
{
    let r = vec![
        String::from_str("--disable-blink-features=AutomationControlled"),
        String::from_str("--no-first-run"),
        String::from_str("--disable-default-apps"),
        String::from_str("--disable-infobars"),
        String::from_str("--disable-extensions"),
        String::from_str("--window-size=1920,1080"),
        String::from_str("--disable-background-timer-throttling"),
        String::from_str("--disable-renderer-backgrounding"),
        String::from_str("--no-sandbox"),
        String::from_str("--disable-dev-shm-usage"),
    ];
    assert(views(r@) =~= stealth_arg_list());
    r
}

/// JavaScript run on every new document before navigation. It hides
/// `navigator.webdriver`, reports plugins and languages, answers the
/// notifications permission query, mocks `chrome.runtime` and reports an Intel
/// WebGL vendor and renderer.
pub const STEALTH_JS: &'static str = r#"
    // 1. Remove webdriver flag
    Object.defineProperty(navigator, 'webdriver', { get: () => undefined });

    // 2. Mock plugins
    Object.defineProperty(navigator, 'plugins', {
        get: () => [
            { name: 'Chrome PDF Plugin', filename: 'internal-pdf-viewer' },
            { name: 'Chrome PDF Viewer', filename: 'mhjfbmdgcfjbbpaeojofohoefgiehjai' },
            { name: 'Native Client', filename: 'internal-nacl-plugin' }
        ]
    });

    // 3. Languages
    Object.defineProperty(navigator, 'languages', {
        get: () => ['en-US', 'en']
    });

    // 4. Permissions
    if (window.Permissions && window.Permissions.prototype) {
        const origQuery = window.Permissions.prototype.query;
        window.Permissions.prototype.query = (parameters) => (
            parameters.name === 'notifications'
                ? Promise.resolve({ state: Notification.permission })
                : origQuery(parameters)
        );
    }

    // 5. Chrome runtime mock
    window.chrome = window.chrome || {};
    window.chrome.runtime = window.chrome.runtime || {
        connect: () => {},
        sendMessage: () => {}
    };

    // 6. WebGL vendor/renderer
    const getParameter = WebGLRenderingContext.prototype.getParameter;
    WebGLRenderingContext.prototype.getParameter = function(parameter) {
        if (parameter === 37445) return 'Intel Inc.';
        if (parameter === 37446) return 'Intel Iris OpenGL Engine';
        return getParameter.call(this, parameter);
    };
    "#;

/// The stealth script to inject via `Page.addScriptToEvaluateOnNewDocument`.
pub fn stealth_js() -> (r: &'static str)
    ensures
        r@ == STEALTH_JS@,
{
    STEALTH_JS
}

} // verus!
