use ddtank_rs::{completion_string, outcome_of, Invocation, InvocationState, Outcome};

#[test]
fn returned_url_completes() {
    assert_eq!(outcome_of(Ok("https://x".to_string())), Outcome::Completed("https://x".to_string()));
}

#[test]
fn raised_error_fails_with_message() {
    match outcome_of(Err("runtime error: boom".to_string())) {
        Outcome::Failed(m) => assert_eq!(m, "runtime error: boom"),
        other => panic!("unexpected {:?}", other),
    }
    match outcome_of(Err(String::new())) {
        Outcome::Failed(m) => assert_eq!(m, "script failed"),
        other => panic!("unexpected {:?}", other),
    }
}

#[test]
fn completion_string_marks_failures() {
    assert_eq!(completion_string(&Outcome::Completed("https://x".to_string())), "https://x");
    assert_eq!(completion_string(&Outcome::Failed("boom".to_string())), "errorboom");
}

#[test]
fn invocation_delivers_exactly_once() {
    let mut inv = Invocation::new();
    assert_eq!(inv.deliver(), None);
    inv.start();
    assert_eq!(inv.state(), &InvocationState::Running);
    assert_eq!(inv.deliver(), None);
    inv.finish(Ok("https://x".to_string()));
    assert_eq!(inv.state(), &InvocationState::Done(Outcome::Completed("https://x".to_string())));
    assert_eq!(inv.deliver(), Some("https://x".to_string()));
    assert_eq!(inv.deliver(), None);
    assert!(inv.is_delivered());
}

#[test]
fn finish_before_start_is_ignored_and_result_not_replaced() {
    let mut inv = Invocation::new();
    inv.finish(Ok("https://early".to_string()));
    assert_eq!(inv.state(), &InvocationState::Pending);
    inv.start();
    inv.finish(Err("bad".to_string()));
    inv.finish(Ok("https://late".to_string()));
    inv.start();
    assert_eq!(inv.state(), &InvocationState::Done(Outcome::Failed("bad".to_string())));
    assert_eq!(inv.deliver(), Some("errorbad".to_string()));
}
