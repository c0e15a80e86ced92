use sqlite2mongo::casing::to_field_name;

#[test]
fn names_stay_as_they_are_without_the_flag() {
    assert_eq!(to_field_name("user_name", false), "user_name");
    assert_eq!(to_field_name("Some Column", false), "Some Column");
    assert_eq!(to_field_name("", false), "");
}

#[test]
fn names_become_lower_camel_case_with_the_flag() {
    assert_eq!(to_field_name("user_name", true), "userName");
    assert_eq!(to_field_name("UserName", true), "userName");
    assert_eq!(to_field_name("created-at", true), "createdAt");
    assert_eq!(to_field_name("SHOUTY_SNAKE_CASE", true), "shoutySnakeCase");
    assert_eq!(to_field_name("XMLHttpRequest", true), "xmlHttpRequest");
    assert_eq!(to_field_name("this is  a__field", true), "thisIsAField");
    assert_eq!(to_field_name("id", true), "id");
    assert_eq!(to_field_name("", true), "");
    assert_eq!(to_field_name("__", true), "");
}

#[test]
fn lower_camel_case_of_lower_camel_case_names() {
    for name in ["user_name", "UserName", "created-at", "SHOUTY_SNAKE_CASE", "XMLHttpRequest", "id", "first name", ""] {
        let once = to_field_name(name, true);
        let twice = to_field_name(&once, true);
        assert_eq!(twice, once);
    }
}

#[test]
fn lower_camel_case_twice_can_differ_from_once() {
    // A capital at the end of a word joins the capital of the next word.
    let once = to_field_name("ab_cD", true);
    assert_eq!(once, "abCD");
    assert_eq!(to_field_name(&once, true), "abCd");
    let once = to_field_name("a b c", true);
    assert_eq!(once, "aBC");
    assert_eq!(to_field_name(&once, true), "aBc");
}
