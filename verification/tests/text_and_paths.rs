use nexcore_notebooklm::persistence::{
    auth_state_path, chrome_profile_path, cookie_store_paths, join, library_path, notebooklm_dir,
    sessions_path,
};
use nexcore_notebooklm::text::{chars_of, collapse_spaces, is_whitespace, str_contains, to_lowercase};

#[test]
fn lowercase_folds_unicode() {
    assert_eq!(to_lowercase("RuSt ÀÉ"), "rust àé");
    assert_eq!(to_lowercase("ABC xyz-09"), "ABC xyz-09".to_ascii_lowercase());
}

#[test]
fn contains_finds_substrings() {
    assert!(str_contains("rust guide", "guide"));
    assert!(str_contains("rust guide", ""));
    assert!(str_contains("äöü", "öü"));
    assert!(!str_contains("rust", "rusty"));
    assert!(!str_contains("rust guide", "gide"));
}

#[test]
fn chars_in_order() {
    assert_eq!(chars_of("añb"), vec!['a', 'ñ', 'b']);
}

#[test]
fn whitespace_is_unicode_white_space() {
    for c in [' ', '\t', '\n', '\r', '\u{0b}', '\u{0c}', '\u{85}', '\u{a0}', '\u{2003}', '\u{3000}'] {
        assert!(is_whitespace(c));
        assert!(c.is_whitespace());
    }
    for c in ['a', '-', '\u{200b}', '\u{180e}'] {
        assert_eq!(is_whitespace(c), c.is_whitespace());
    }
}

#[test]
fn collapse_trims_and_joins_words() {
    assert_eq!(collapse_spaces("  Hello \t\n World  "), "Hello World");
    assert_eq!(collapse_spaces(""), "");
    assert_eq!(collapse_spaces(" \u{a0} "), "");
    assert_eq!(collapse_spaces("a"), "a");
    assert_eq!(collapse_spaces("a  b   c"), "a b c");
    let once = collapse_spaces("\t x \u{3000} y  z ");
    assert_eq!(once, "x y z");
    assert_eq!(collapse_spaces(&once), once);
}

#[test]
fn paths_join_with_one_separator() {
    assert_eq!(join("/data", "x.json"), "/data/x.json");
    assert_eq!(join("/data/", "x.json"), "/data/x.json");
    assert_eq!(join("", "x.json"), "x.json");
}

#[test]
fn data_dir_layout() {
    let dir = notebooklm_dir("/home/u/.local/share");
    assert_eq!(dir, "/home/u/.local/share/notebooklm");
    assert!(dir.contains("notebooklm"));
    assert_eq!(library_path(&dir), "/home/u/.local/share/notebooklm/library.json");
    assert_eq!(sessions_path(&dir), "/home/u/.local/share/notebooklm/sessions.json");
    assert_eq!(auth_state_path(&dir), "/home/u/.local/share/notebooklm/auth_state.json");
    assert_eq!(chrome_profile_path(&dir), "/home/u/.local/share/notebooklm/chrome_profile");
    let (a, b) = cookie_store_paths("/p");
    assert_eq!(a, "/p/Default/Cookies");
    assert_eq!(b, "/p/Default/Network/Cookies");
}

#[test]
fn paths_match_std_path_join() {
    let base = "/home/u/.local/share/notebooklm";
    let expected = std::path::Path::new(base).join("library.json");
    assert_eq!(library_path(base), expected.to_string_lossy());
}
