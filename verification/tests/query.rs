use afire::Query;

#[test]
fn test_from_str() {
    let query = Query::from_body("foo=bar&nose=dog");
    assert_eq!(query.get("foo"), Some("bar"));
    assert_eq!(query.get("nose"), Some("dog"));
    assert_eq!(query.get("bar"), None);
}

#[test]
fn test_get() {
    let query = Query::from_body("foo=bar&nose=dog");
    assert_eq!(query.get("foo"), Some("bar"));
    assert_eq!(query.get("nose"), Some("dog"));
    assert_eq!(query.get("bar"), None);
}

#[test]
fn test_get_mut() {
    let mut query = Query::from_body("foo=bar&nose=dog");
    assert_eq!(query.get_mut("bar"), None);
    query.get_mut("foo").unwrap().push_str("bar");
    assert_eq!(query.get("foo"), Some("barbar"));
}

#[test]
fn test_query_first_match_wins() {
    let query = Query::from_body("k=one&k=two");
    assert_eq!(query.get("k"), Some("one"));
    assert_eq!(query.0.len(), 2);
}

#[test]
fn test_query_url_decoded_sides() {
    let query = Query::from_body("na%6de=jo+hn&greeting=hello%20world");
    assert_eq!(query.get("name"), Some("jo hn"));
    assert_eq!(query.get("greeting"), Some("hello world"));
}

#[test]
fn test_query_part_without_equals_skipped() {
    let query = Query::from_body("flag&foo=bar");
    assert!(!query.has("flag"));
    assert_eq!(query.get("foo"), Some("bar"));
}

#[test]
fn test_query_bad_escape_kept_raw() {
    let query = Query::from_body("k=%zz");
    assert_eq!(query.get("k"), Some("%zz"));
}

#[test]
fn test_query_add_and_get_query() {
    let mut query = Query::new_empty();
    assert!(!query.has("a"));
    query.add("a", "1");
    query.add_query(("b".to_string(), "2".to_string()));
    assert!(query.has("a"));
    assert_eq!(query.get_query("b"), Some(&("b".to_string(), "2".to_string())));
    let pair = query.get_query_mut("a").unwrap();
    pair.1.push('0');
    assert_eq!(query.get("a"), Some("10"));
}

#[test]
fn test_query_to_string() {
    let query = Query::from_body("foo=bar&nose=dog");
    assert_eq!(query.to_query_string(), "?foo=bar&nose=dog");
    assert_eq!(Query::new_empty().to_query_string(), "");
}
