use http_server::query_string::{QueryString, Value};

fn single<'a, 'buf>(qs: &'a QueryString<'buf>, key: &str) -> &'a str {
    match qs.get(key) {
        Some(Value::Single(v)) => v,
        Some(Value::Multiple(_)) => panic!("key {} holds multiple values", key),
        None => panic!("key {} is missing", key),
    }
}

fn multiple<'a, 'buf>(qs: &'a QueryString<'buf>, key: &str) -> Vec<&'buf str> {
    match qs.get(key) {
        Some(Value::Multiple(vs)) => vs.clone(),
        Some(Value::Single(_)) => panic!("key {} holds a single value", key),
        None => panic!("key {} is missing", key),
    }
}

#[test]
fn unrepeated_keys_stay_single() {
    let qs = QueryString::from("name=abc&sort=1");
    assert_eq!(single(&qs, "name"), "abc");
    assert_eq!(single(&qs, "sort"), "1");
}

#[test]
fn key_without_equals_maps_to_empty() {
    let qs = QueryString::from("flag");
    assert_eq!(single(&qs, "flag"), "");
}

#[test]
fn empty_input_yields_empty_key() {
    let qs = QueryString::from("");
    assert_eq!(single(&qs, ""), "");
}

#[test]
fn empty_segment_yields_empty_key() {
    let qs = QueryString::from("a=1&&b=2");
    assert_eq!(single(&qs, "a"), "1");
    assert_eq!(single(&qs, ""), "");
    assert_eq!(single(&qs, "b"), "2");
}

#[test]
fn only_first_equals_delimits() {
    let qs = QueryString::from("a=b=c");
    assert_eq!(single(&qs, "a"), "b=c");
}

#[test]
fn values_are_kept_verbatim() {
    let qs = QueryString::from("q=one+two%20three");
    assert_eq!(single(&qs, "q"), "one+two%20three");
}

#[test]
fn repeated_key_promotes_to_multiple() {
    let qs = QueryString::from("k=1&k=2");
    assert_eq!(multiple(&qs, "k"), vec!["1", "2"]);
}

#[test]
fn third_occurrence_appends() {
    let qs = QueryString::from("k=1&k=2&k=3");
    assert_eq!(multiple(&qs, "k"), vec!["1", "2", "3"]);
}

#[test]
fn mixed_repeated_and_single_keys() {
    let qs = QueryString::from("a=1&b=2&a=3");
    assert_eq!(multiple(&qs, "a"), vec!["1", "3"]);
    assert_eq!(single(&qs, "b"), "2");
}

#[test]
fn absent_key_is_none() {
    let qs = QueryString::from("a=1&b=2");
    assert!(qs.get("c").is_none());
}
