use proxmox_backup_qemu::bridge::{
    connect_status, sanitize_message, Completion, CompletionToken, GotResultCondition,
    STATUS_FAILURE, STATUS_SUCCESS, STATUS_SUCCESS_WITH_PRIOR,
};
use proxmox_backup_qemu::errors::SessionError;

#[test]
fn status_codes_are_the_fixed_enumeration() {
    assert_eq!(STATUS_SUCCESS, 0);
    assert_eq!(STATUS_SUCCESS_WITH_PRIOR, 1);
    assert_eq!(STATUS_FAILURE, -1);
    assert_eq!(connect_status(false), 0);
    assert_eq!(connect_status(true), 1);
}

#[test]
fn completion_of_success_has_value_and_no_message() {
    let completion = Completion::from_result(Ok(0));
    assert_eq!(completion, Completion { status: 0, error: None });
    let completion = Completion::from_result(Ok(1));
    assert_eq!(completion, Completion { status: 1, error: None });
    let completion = Completion::from_result(Ok(255));
    assert_eq!(completion, Completion { status: 255, error: None });
}

#[test]
fn completion_of_failure_has_minus_one_and_message() {
    let completion = Completion::from_result(Err(SessionError::StreamClosed));
    assert_eq!(completion.status, -1);
    assert_eq!(completion.error.as_deref(), Some("image is closed"));
    let completion = Completion::from_result(Err(SessionError::Aborted(String::from("stop"))));
    assert_eq!(completion.status, -1);
    assert_eq!(completion.error.as_deref(), Some("aborted by caller: stop"));
}

#[test]
fn token_is_filled_once_and_emptied_once() {
    let mut token = CompletionToken::new();
    assert!(token.is_pending());
    assert_eq!(token.take(), None);
    assert!(token.is_pending());
    assert!(token.complete(Ok(1)));
    assert!(!token.is_pending());
    assert!(!token.complete(Ok(7)));
    assert!(!token.complete(Err(SessionError::NotConnected)));
    assert_eq!(token.take(), Some(Completion { status: 1, error: None }));
    assert_eq!(token.take(), None);
    assert!(!token.is_pending());
    assert!(!token.complete(Ok(3)));
    assert_eq!(token.take(), None);
}

#[test]
fn token_keeps_first_failure() {
    let mut token = CompletionToken::new();
    assert!(token.complete(Err(SessionError::WriteOutOfRange)));
    assert!(!token.complete(Ok(0)));
    let completion = token.take().unwrap();
    assert_eq!(completion.status, -1);
    assert_eq!(completion.error.as_deref(), Some("write exceeds the size of the image"));
}

#[test]
fn blocking_and_notified_forms_agree() {
    let results: Vec<Result<i32, SessionError>> = vec![
        Ok(0),
        Ok(1),
        Ok(17),
        Err(SessionError::NotConnected),
        Err(SessionError::Transfer(String::from("disk full"))),
        Err(SessionError::Aborted(String::from("by user"))),
    ];
    for result in results {
        let notified = Completion::from_result(result.clone());
        let condition = GotResultCondition::new();
        assert!(condition.send_result(result));
        let blocking = condition.wait().unwrap();
        assert_eq!(blocking, notified);
    }
}

#[test]
fn wait_returns_a_result_sent_before() {
    let condition = GotResultCondition::new();
    assert!(condition.send_result(Ok(1)));
    assert_eq!(condition.wait(), Some(Completion { status: 1, error: None }));
}

#[test]
fn condition_drops_results_after_the_first() {
    let condition = GotResultCondition::new();
    assert!(condition.send_result(Err(SessionError::UnknownStream)));
    assert!(!condition.send_result(Ok(0)));
    let completion = condition.wait().unwrap();
    assert_eq!(completion.status, -1);
    assert_eq!(completion.error.as_deref(), Some("no such image"));
    assert_eq!(condition.wait(), None);
    assert!(!condition.send_result(Ok(0)));
}

#[test]
fn messages_without_zero_bytes_pass_unchanged() {
    assert_eq!(sanitize_message(String::from("connection failed")), "connection failed");
    assert_eq!(sanitize_message(String::new()), "");
    assert_eq!(sanitize_message(String::from("größe: 4 MiB")), "größe: 4 MiB");
}

#[test]
fn messages_with_zero_bytes_are_replaced() {
    let expected = "failed to convert error message containing 0 bytes";
    assert_eq!(sanitize_message(String::from("bad\0message")), expected);
    assert_eq!(sanitize_message(String::from("\0")), expected);
    assert_eq!(sanitize_message(String::from("tail\0")), expected);
}
