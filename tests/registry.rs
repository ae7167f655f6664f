use ddtank_rs::{Strategy, StrategyError};

fn entry(name: &str, text: &str) -> (String, String) {
    (name.to_string(), text.to_string())
}

#[test]
fn loaded_scripts_are_found_and_listed() {
    let mut s = Strategy::new();
    s.load(vec![entry("a.lua", "function login() end"), entry("b.lua", "return 1")]);
    assert_eq!(s.get("a.lua").unwrap(), "function login() end");
    assert_eq!(s.get("b.lua").unwrap(), "return 1");
    let mut names = s.list();
    names.sort();
    assert_eq!(names, vec!["a.lua".to_string(), "b.lua".to_string()]);
}

#[test]
fn unknown_strategy_is_not_found() {
    let mut s = Strategy::new();
    s.insert("a.lua".to_string(), "x".to_string());
    assert_eq!(s.get("missing.lua"), Err(StrategyError::StrategyNotFound("missing.lua".to_string())));
    let empty = Strategy::new();
    assert!(empty.get("").is_err());
    assert!(empty.list().is_empty());
}

#[test]
fn reload_overwrites_and_keeps_old_entries() {
    let mut s = Strategy::new();
    s.load(vec![entry("a.lua", "one"), entry("b.lua", "two")]);
    s.load(vec![entry("a.lua", "three")]);
    assert_eq!(s.get("a.lua").unwrap(), "three");
    assert_eq!(s.get("b.lua").unwrap(), "two");
    assert_eq!(s.list().len(), 2);
}

#[test]
fn later_entry_of_same_name_wins() {
    let mut s = Strategy::new();
    s.load(vec![entry("a.lua", "first"), entry("a.lua", "second")]);
    assert_eq!(s.get("a.lua").unwrap(), "second");
    assert_eq!(s.list(), vec!["a.lua".to_string()]);
}

#[test]
fn not_found_message_names_strategy() {
    let e = StrategyError::StrategyNotFound("x.lua".to_string());
    assert_eq!(e.message(), "strategy x.lua does not exist");
}
