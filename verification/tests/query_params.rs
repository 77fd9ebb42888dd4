use fluxor::{extract_query, get_param};

#[test]
fn query_pairs_are_decoded() {
    let q = extract_query("a=1&b=x%20y&c=1+2");
    assert_eq!(get_param(&q, "a"), "1");
    assert_eq!(get_param(&q, "b"), "x y");
    assert_eq!(get_param(&q, "c"), "1 2");
}

#[test]
fn percent_escaped_names_are_decoded() {
    let q = extract_query("%23first=%25try%25");
    assert_eq!(get_param(&q, "#first"), "%try%");
}

#[test]
fn empty_query_has_no_pairs() {
    let q = extract_query("");
    assert_eq!(get_param(&q, "a"), "");
    assert_eq!(q.get("a"), None);
}

#[test]
fn later_pair_overrides_earlier() {
    let q = extract_query("a=1&a=2");
    assert_eq!(get_param(&q, "a"), "2");
    assert_eq!(q.len(), 1);
}

#[test]
fn pair_count_reflects_distinct_names() {
    let q = extract_query("a=1&b=2&b=3");
    assert_eq!(q.len(), 2);
}

#[test]
fn pair_without_equals_has_empty_value() {
    let q = extract_query("flag");
    assert_eq!(q.get("flag"), Some(String::new()));
    assert_eq!(get_param(&q, "flag"), "");
}

#[test]
fn get_param_defaults_to_empty() {
    let q = extract_query("a=1");
    assert_eq!(get_param(&q, "missing"), "");
}
