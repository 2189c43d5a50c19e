use lazysync::path::{normalize_path, trim};

#[test]
fn normalize_strips_trailing_slashes() {
    assert_eq!(normalize_path("/tmp/proj/"), "/tmp/proj");
    assert_eq!(normalize_path("/tmp/proj///"), "/tmp/proj");
    assert_eq!(normalize_path("/tmp/proj"), "/tmp/proj");
}

#[test]
fn normalize_keeps_root_and_empty() {
    assert_eq!(normalize_path("/"), "/");
    assert_eq!(normalize_path(""), "");
    assert_eq!(normalize_path("   "), "");
    assert_eq!(normalize_path("  /  "), "/");
}

#[test]
fn normalize_of_only_slashes_is_empty() {
    assert_eq!(normalize_path("//"), "");
}

#[test]
fn normalize_trims_white_space() {
    assert_eq!(normalize_path("  /a/b/ \n"), "/a/b");
    assert_eq!(normalize_path("\t/a\u{3000}"), "/a");
    assert_eq!(normalize_path("\u{a0}/a\u{2003}"), "/a");
}

#[test]
fn normalize_agrees_with_std_trim() {
    let samples = [
        "", " ", "/", "a", " a ", "a /", "/x/y//", "\u{85}p\u{1680}", "\u{2028}q/\u{2029}",
        "\u{202f}r\u{205f}", "\u{200b}s\u{200b}", "\u{1c}t\u{1f}", "é/", "/日本/",
    ];
    for s in samples {
        let t = s.trim();
        let expected = if t == "/" || t.is_empty() { t } else { t.trim_end_matches('/') };
        assert_eq!(normalize_path(s), expected, "input {:?}", s);
        assert_eq!(trim(s), t, "input {:?}", s);
    }
}

#[test]
fn normalize_twice_is_once() {
    for s in ["/tmp/proj/", "/", "", " /a/b// ", "rel/path/", "//"] {
        let once = normalize_path(s);
        assert_eq!(normalize_path(&once), once);
    }
}

#[test]
fn normalize_twice_differs_when_space_precedes_slash() {
    let once = normalize_path("a /");
    assert_eq!(once, "a ");
    assert_eq!(normalize_path(&once), "a");
}

#[test]
fn matches_by_each_rule() {
    // exact
    assert!(lazysync::path::matches("/a", "/a", "/x", "/y"));
    // both normalised
    assert!(lazysync::path::matches("/a/", "/a", "/x", "/y"));
    assert!(lazysync::path::matches("/a", "/a//", "/x", "/y"));
    // candidate is the request's canonical form
    assert!(lazysync::path::matches("rel", "/cwd/rel", "/cwd/rel", "/other"));
    // both canonical forms agree
    assert!(lazysync::path::matches("link", "/cwd/link", "/real", "/real"));
    // candidate's canonical form is the normalised request
    assert!(lazysync::path::matches("/real/", "/cwd/link", "/elsewhere", "/real"));
    // none
    assert!(!lazysync::path::matches("/a", "/b", "/c", "/d"));
}
