use streamer_tools::text::{remove_char, split_char, split_once, str_eq, substring};

#[test]
fn split_keeps_empty_pieces() {
    assert_eq!(split_char("a,b,,c,", ','), vec!["a", "b", "", "c", ""]);
    assert_eq!(split_char("", ','), vec![""]);
    assert_eq!(split_char("abc", ','), vec!["abc"]);
}

#[test]
fn split_once_at_first() {
    assert_eq!(split_once("k=v=w", '='), Some(("k".to_string(), "v=w".to_string())));
    assert_eq!(split_once("=v", '='), Some(("".to_string(), "v".to_string())));
    assert_eq!(split_once("kv", '='), None);
}

#[test]
fn remove_and_compare() {
    assert_eq!(remove_char("?a?b?", '?'), "ab");
    assert!(str_eq("äb", "äb"));
    assert!(!str_eq("ab", "abc"));
    assert_eq!(substring("héllo", 1, 3), "él");
}
