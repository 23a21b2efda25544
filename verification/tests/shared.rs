use streamer_tools::shared::{accept_id, get_random_id};

#[test]
fn test_get_random_id() {
    for _ in 1..11 {
        let id = get_random_id();
        assert!((1..u16::MAX).contains(&id));
    }
}

#[test]
fn accept_id_refuses_both_ends() {
    assert!(!accept_id(0));
    assert!(!accept_id(u16::MAX));
    assert!(accept_id(1));
    assert!(accept_id(u16::MAX - 1));
    assert!(accept_id(4242));
}
