use hbb_common::text::{remove_pattern, starts_with, strip_quotes};

#[test]
fn strip_quotes_matches_replace() {
    for t in ["", "\"abc\"", "a\"b\"c", "\"\"", "null", "\"x\\\"y\""] {
        assert_eq!(strip_quotes(t), t.replace("\"", ""));
    }
}

#[test]
fn strip_quotes_twice_is_once() {
    let once = strip_quotes("\"2024-01-01\"");
    assert_eq!(once, "2024-01-01");
    assert_eq!(strip_quotes(&once), once);
}

#[test]
fn remove_pattern_matches_replace() {
    let cases = [
        ("change-title:hello", "change-title:"),
        ("change-title:change-title:x", "change-title:"),
        ("aaaa", "aa"),
        ("aaa", "aa"),
        ("abcabc", "bc"),
        ("abc", ""),
        ("", "x"),
        ("change-title", "change-title:"),
    ];
    for (s, p) in cases {
        assert_eq!(remove_pattern(s, p), s.replace(p, ""), "{:?} {:?}", s, p);
    }
}

#[test]
fn starts_with_matches_std() {
    for (s, p) in [("change-title:x", "change-title"), ("chan", "change-title"), ("", ""), ("x", "")] {
        assert_eq!(starts_with(s, p), s.starts_with(p));
    }
}
