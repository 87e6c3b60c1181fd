use autopush_core::call::{BoundaryFault, CallError, CallOutcome, Server};
use autopush_core::protocol::Id;

fn chars_of(s: &str) -> Vec<char> {
    s.chars().collect()
}

fn string_of(v: &[char]) -> String {
    v.iter().collect()
}

fn id_of(s: &str) -> Id {
    Id::new(chars_of(s)).unwrap()
}

const UAID: &str = "11111111-1111-1111-1111-111111111111";

fn ok_response() -> String {
    format!(
        "{{\"uaid\":\"{}\",\"message_month\":\"2019-01\",\"reset_uaid\":false,\"rotate_message_table\":false}}",
        UAID
    )
}

#[test]
fn timestamp_encoding_truncates() {
    // 10 whole seconds and 500,000,000 nanoseconds encode to 10500 ms
    let server = Server::new();
    let handle = server.hello(10, 500_000_000, None).unwrap();
    assert_eq!(
        string_of(handle.input().unwrap()),
        "{\"command\":\"hello\",\"connected_at\":10500,\"uaid\":null}"
    );
}

#[test]
fn hello_carries_the_uaid() {
    let server = Server::new();
    let uaid = id_of(UAID);
    let handle = server.hello(0, 999_999_999, Some(&uaid)).unwrap();
    assert_eq!(
        string_of(handle.input().unwrap()),
        format!("{{\"command\":\"hello\",\"connected_at\":999,\"uaid\":\"{}\"}}", UAID)
    );
}

#[test]
fn at_most_once_completion() {
    let server = Server::new();
    let mut handle = server.hello(10, 0, None).unwrap();
    assert_eq!(handle.complete(&chars_of(&ok_response())), Ok(()));
    // the second attempt is rejected ...
    let second = handle.complete(&chars_of("{\"error\":true,\"error_msg\":\"late\"}"));
    assert_eq!(second, Err(BoundaryFault::CompletionConsumed));
    // ... and the first result still stands
    match handle.resolve() {
        CallOutcome::Response(h) => {
            assert_eq!(h.uaid, Some(id_of(UAID)));
            assert_eq!(h.message_month, chars_of("2019-01"));
        },
        other => panic!("expected the first response, got {:?}", other),
    }
}

#[test]
fn poisoned_handle_keeps_reporting() {
    let server = Server::new();
    let mut handle = server.hello(10, 0, None).unwrap();
    handle.complete(&chars_of(&ok_response())).unwrap();
    assert!(handle.complete(&chars_of("{}")).is_err());
    // every later guarded operation reports the same failure class at once
    assert_eq!(handle.input(), Err(BoundaryFault::CompletionConsumed));
    assert_eq!(handle.complete(&chars_of("{}")), Err(BoundaryFault::CompletionConsumed));
}

#[test]
fn destroyed_call_resolves_cancelled() {
    // the external process exits before completing the call
    let server = Server::new();
    let handle = server.hello(10, 0, None).unwrap();
    assert_eq!(handle.resolve(), CallOutcome::Cancelled);
}

#[test]
fn completion_with_error_envelope() {
    let server = Server::new();
    let mut handle = server.hello(10, 0, None).unwrap();
    handle
        .complete(&chars_of("{\"error\":true,\"error_msg\":\"storage is down\"}"))
        .unwrap();
    assert_eq!(
        handle.resolve(),
        CallOutcome::ApplicationError(chars_of("storage is down"))
    );
}

#[test]
fn completion_with_malformed_text() {
    let server = Server::new();
    let mut handle = server.hello(10, 0, None).unwrap();
    handle.complete(&chars_of("not json at all")).unwrap();
    assert_eq!(handle.resolve(), CallOutcome::DeserializationError);
}

#[test]
fn link_gone_fails_every_initiate() {
    let mut server = Server::new();
    server.mark_link_gone();
    assert!(matches!(server.hello(10, 0, None), Err(CallError::LinkGone)));
    // still gone for the next call: nothing resets it
    assert!(matches!(server.hello(11, 0, None), Err(CallError::LinkGone)));
}

#[test]
fn completion_with_reordered_error_envelope() {
    let server = Server::new();
    let mut handle = server.hello(10, 0, None).unwrap();
    handle
        .complete(&chars_of("{\"error_msg\":\"storage is down\",\"error\":true}"))
        .unwrap();
    assert_eq!(
        handle.resolve(),
        CallOutcome::ApplicationError(chars_of("storage is down"))
    );
}
