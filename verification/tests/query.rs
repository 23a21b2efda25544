use streamer_tools::query::query_parser;

#[test]
fn query_pairs() {
    let q = query_parser("?a=1&b=2&flag&c=x=y");
    assert_eq!(q.get("a").map(|s| s.as_str()), Some("1"));
    assert_eq!(q.get("b").map(|s| s.as_str()), Some("2"));
    assert_eq!(q.get("c").map(|s| s.as_str()), Some("x=y"));
    assert!(q.get("flag").is_none());
    assert_eq!(q.len(), 3);
}

#[test]
fn query_later_key_wins() {
    let q = query_parser("a=1&a=2&?b?=3");
    assert_eq!(q.get("a").map(|s| s.as_str()), Some("2"));
    assert_eq!(q.get("b").map(|s| s.as_str()), Some("3"));
    assert_eq!(q.len(), 2);
}

#[test]
fn query_empty() {
    assert_eq!(query_parser("").len(), 0);
    assert_eq!(query_parser("?").len(), 0);
}
