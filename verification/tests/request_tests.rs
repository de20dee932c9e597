use hello::llm::Role;
use hello::request::{PollingMode, RequestTask};

#[test]
fn superseding_leaves_one_active_transfer() {
    let mut rt = RequestTask::new();
    let first = rt.begin_conversation(String::from("sys"), String::from("hello"));
    assert_eq!(rt.active_transfer, Some(first));
    // Submitting while the first transfer is in flight cancels it and
    // registers exactly one new transfer.
    let second = rt.on_user_prompt(String::from("next"), Some(String::from("answer")));
    assert_ne!(first, second);
    assert_eq!(rt.active_transfer, Some(second));
    // No piece of the discarded transfer is accepted after the cancellation
    // point.
    assert!(!rt.accept_piece(first));
    assert!(rt.accept_piece(second));
}

#[test]
fn submitted_prompt_appends_assistant_then_user() {
    let mut rt = RequestTask::new();
    let _ = rt.begin_conversation(String::from("sys"), String::from("hello"));
    assert_eq!(rt.history.len(), 2);
    assert!(matches!(rt.history[0].0, Role::Developer));
    assert!(matches!(rt.history[1].0, Role::User));
    let _ = rt.on_user_prompt(String::from("next"), Some(String::from("answer")));
    assert_eq!(rt.history.len(), 4);
    assert!(matches!(rt.history[2].0, Role::Assistant));
    assert_eq!(rt.history[2].1, "answer");
    assert!(matches!(rt.history[3].0, Role::User));
    assert_eq!(rt.history[3].1, "next");
    assert!(matches!(rt.polling_mode, PollingMode::AwaitRequestUpdate));
}

#[test]
fn prompt_without_prior_answer_appends_only_user() {
    let mut rt = RequestTask::new();
    let _ = rt.begin_conversation(String::from("sys"), String::from("hello"));
    let _ = rt.on_user_prompt(String::from("again"), None);
    assert_eq!(rt.history.len(), 3);
    assert!(matches!(rt.history[2].0, Role::User));
    assert_eq!(rt.history[2].1, "again");
}

#[test]
fn completion_retires_the_transfer() {
    let mut rt = RequestTask::new();
    let _ = rt.begin_conversation(String::from("sys"), String::from("hello"));
    // Transfers still running: nothing to report.
    assert!(!rt.on_poll_result(1));
    assert!(rt.active_transfer.is_some());
    // The multiplexer went idle: one completion is owed and the loop waits
    // for the next prompt.
    assert!(rt.on_poll_result(0));
    assert!(rt.active_transfer.is_none());
    assert!(matches!(rt.polling_mode, PollingMode::AwaitPrompt));
    // Reporting idle again is a no-op.
    assert!(!rt.on_poll_result(0));
}

#[test]
fn die_stops_the_loop_and_discards_the_transfer() {
    let mut rt = RequestTask::new();
    let _ = rt.begin_conversation(String::from("sys"), String::from("hello"));
    rt.on_die();
    assert!(!rt.running);
    assert!(rt.active_transfer.is_none());
}

#[test]
fn cancel_when_idle_is_a_no_op() {
    let mut rt = RequestTask::new();
    rt.stop_ongoing();
    assert!(rt.active_transfer.is_none());
    assert!(rt.running);
}
