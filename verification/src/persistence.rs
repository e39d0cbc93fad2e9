//! Layout of the data directory: where the library, the sessions, the auth
//! state and the Chrome profile live. Paths are strings joined with `/`.

use vstd::prelude::*;

use crate::text::chars_of;

verus! {

/// `PathBuf::push` of a relative component on a Unix path: a separator is put
/// between the two unless the base is empty or already ends with one.
pub open spec fn path_join(base: Seq<char>, part: Seq<char>) -> Seq<char> {
    if base.len() == 0 || base.last() == '/' {
        base + part
    } else {
        base + seq!['/'] + part
    }
}

/// `base` joined with the relative component `part`.
pub fn join(base: &str, part: &str) -> (r: String)
    ensures
        r@ == path_join(base@, part@),
{
    let chars = chars_of(base);
    let mut r = String::from_str(base);
    if chars.len() > 0 && chars[chars.len() - 1] != '/' {
        r.append("/");
        proof {
            reveal_strlit("/");
        }
    }
    r.append(part);
    r
}

/// The data directory for NotebookLM inside an application data root:
/// `<root>/notebooklm`.
pub fn notebooklm_dir(data_root: &str) -> (r: String)
    ensures
        r@ == path_join(data_root@, "notebooklm"@),
{
    join(data_root, "notebooklm")
}

/// Path to the library JSON file in the data directory.
pub fn library_path(data_dir: &str) -> (r: String)
    ensures
        r@ == path_join(data_dir@, "library.json"@),
{
    join(data_dir, "library.json")
}

/// Path to the sessions JSON file in the data directory.
pub fn sessions_path(data_dir: &str) -> (r: String)
    ensures
        r@ == path_join(data_dir@, "sessions.json"@),
{
    join(data_dir, "sessions.json")
}

/// Path to the auth state JSON file in the data directory.
pub fn auth_state_path(data_dir: &str) -> (r: String)
    ensures
        r@ == path_join(data_dir@, "auth_state.json"@),
{
    join(data_dir, "auth_state.json")
}

/// Path to the Chrome profile directory in the data directory.
pub fn chrome_profile_path(data_dir: &str) -> (r: String)
    ensures
        r@ == path_join(data_dir@, "chrome_profile"@),
{
    join(data_dir, "chrome_profile")
}

/// The two places where Chrome keeps the cookie store of a profile:
/// `<profile>/Default/Cookies` and `<profile>/Default/Network/Cookies`.
pub fn cookie_store_paths(profile: &str) -> (r: (String, String))
    ensures
        r.0@ == path_join(path_join(profile@, "Default"@), "Cookies"@),
        r.1@ == path_join(path_join(path_join(profile@, "Default"@), "Network"@), "Cookies"@),
{
    let default = join(profile, "Default");
    let cookies = join(default.as_str(), "Cookies");
    let network = join(default.as_str(), "Network");
    let network_cookies = join(network.as_str(), "Cookies");
    (cookies, network_cookies)
}

} // verus!
