use sqlite2mongo::text::str_eq;

#[test]
fn equal_strings_are_equal() {
    assert!(str_eq("", ""));
    assert!(str_eq("INTEGER", "INTEGER"));
    assert!(str_eq("h\u{e9}llo \u{1F600}", "h\u{e9}llo \u{1F600}"));
}

#[test]
fn different_strings_are_different() {
    assert!(!str_eq("", " "));
    assert!(!str_eq("INTEGER", "INTEGEr"));
    assert!(!str_eq("INTEGER", "INTEGER "));
    assert!(!str_eq("abc", "abd"));
    assert!(!str_eq("e\u{301}", "\u{e9}"));
    assert!(!str_eq("ab", "a"));
}
