use ddtank_rs::{sort_by_recent, ProcessSet, UserInfo};

fn user(name: &str, last_used: Option<u64>) -> UserInfo {
    UserInfo {
        username: name.to_string(),
        password: "p".to_string(),
        strategy: "s.lua".to_string(),
        server: "1".to_string(),
        nickname: None,
        last_used,
    }
}

#[test]
fn teardown_with_no_process() {
    let mut set: ProcessSet<u32> = ProcessSet::new();
    assert!(set.shutdown().is_empty());
    assert_eq!(set.len(), 0);
}

#[test]
fn teardown_signals_each_process_once() {
    let mut one: ProcessSet<u32> = ProcessSet::new();
    one.track(7);
    assert_eq!(one.shutdown(), vec![7]);
    assert!(one.shutdown().is_empty());

    let mut many: ProcessSet<u32> = ProcessSet::new();
    many.track(1);
    many.track(2);
    many.track(3);
    assert_eq!(many.len(), 3);
    assert_eq!(many.shutdown(), vec![1, 2, 3]);
    assert!(many.shutdown().is_empty());
}

#[test]
fn accounts_sorted_most_recent_first() {
    let users = vec![
        ("a".to_string(), user("a", Some(5))),
        ("b".to_string(), user("b", None)),
        ("c".to_string(), user("c", Some(9))),
        ("d".to_string(), user("d", Some(5))),
    ];
    let sorted = sort_by_recent(users);
    let ids: Vec<&str> = sorted.iter().map(|(id, _)| id.as_str()).collect();
    assert_eq!(ids, vec!["c", "a", "d", "b"]);
    assert!(sort_by_recent(Vec::new()).is_empty());
}
