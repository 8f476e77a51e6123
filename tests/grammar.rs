use cmp_by_derive::{is_marker, parse_selector_list, resolve_selectors};

fn strings(v: &[&str]) -> Vec<String> {
    v.iter().map(|s| s.to_string()).collect()
}

#[test]
fn parses_paths_calls_and_strings() {
    assert_eq!(
        parse_selector_list("(a, b.c, get(), \"nested.path\", x.y())"),
        Some(strings(&["a", "b.c", "get()", "nested.path", "x.y()"]))
    );
}

#[test]
fn parses_token_spacing() {
    assert_eq!(
        parse_selector_list("(get_something () , something . do_this ())"),
        Some(strings(&["get_something()", "something.do_this()"]))
    );
    assert_eq!(parse_selector_list("( \" a . b \" )"), Some(strings(&["a.b"])));
}

#[test]
fn parses_positional_segments() {
    assert_eq!(parse_selector_list("(0, a.1.b)"), Some(strings(&["0", "a.1.b"])));
}

#[test]
fn empty_list_and_trailing_comma() {
    assert_eq!(parse_selector_list("()"), Some(vec![]));
    assert_eq!(parse_selector_list("(a,)"), Some(strings(&["a"])));
}

#[test]
fn rejects_what_is_not_a_selector() {
    for bad in [
        "", "a", "(", "(,)", "(a,,b)", "(a + b)", "(f(x))", "(1a)", "(0())", "(a().b)", "(\"\")",
        "(\"a\" b)", "(a) x", "(a b)", "(a.)", "(.a)", "(1.5e3)", "(f(1, 2))", "= \"x\"",
    ] {
        assert_eq!(parse_selector_list(bad), None, "{bad}");
    }
}

#[test]
fn marker_is_recognized_exactly() {
    assert!(is_marker(&"_fields".to_string()));
    assert!(!is_marker(&"_field".to_string()));
    assert!(!is_marker(&"_fields()".to_string()));
}

#[test]
fn resolve_prepends_without_marker() {
    let items = strings(&["s1", "s2"]);
    let fields = strings(&["f1", "f2"]);
    assert_eq!(resolve_selectors(&items, &fields, true), strings(&["s1", "s2", "f1", "f2"]));
    assert_eq!(resolve_selectors(&vec![], &fields, true), fields);
}

#[test]
fn resolve_replaces_marker_in_place() {
    let items = strings(&["s1", "_fields", "s2"]);
    let fields = strings(&["f1", "f2"]);
    assert_eq!(resolve_selectors(&items, &fields, true), strings(&["s1", "f1", "f2", "s2"]));
    assert_eq!(
        resolve_selectors(&items, &fields, false),
        strings(&["s1", "_fields", "s2", "f1", "f2"])
    );
}

#[test]
fn accepts_identifiers_beyond_ascii() {
    assert_eq!(parse_selector_list("(é, größe.länge())"), Some(strings(&["é", "größe.länge()"])));
    assert_eq!(parse_selector_list("(\"été\")"), Some(strings(&["été"])));
}

#[test]
fn accepts_raw_identifiers() {
    assert_eq!(
        parse_selector_list("(r#type, a.r#match(), \"r#loop\", r, rx.ry)"),
        Some(strings(&["r#type", "a.r#match()", "r#loop", "r", "rx.ry"]))
    );
    assert_eq!(parse_selector_list("(r # type)"), None);
    assert_eq!(parse_selector_list("(r#)"), None);
    assert_eq!(parse_selector_list("(r#0)"), None);
}

#[test]
fn refuses_escapes_and_raw_strings() {
    assert_eq!(parse_selector_list("(\"a\\\"b\")"), None);
    assert_eq!(parse_selector_list("(r\"a.b\")"), None);
}
