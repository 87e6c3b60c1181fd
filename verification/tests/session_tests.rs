use autopush_core::call::{CallOutcome, Server};
use autopush_core::codec::{decode_client_message, encode_server_message};
use autopush_core::protocol::{ClientMessage, Id, Notification, ServerMessage};
use autopush_core::session::{HelloAction, Session, SessionAction, SessionState};

fn chars_of(s: &str) -> Vec<char> {
    s.chars().collect()
}

fn string_of(v: &[char]) -> String {
    v.iter().collect()
}

fn id_of(s: &str) -> Id {
    Id::new(chars_of(s)).unwrap()
}

const UAID: &str = "11111111-1111-1111-1111-111111111111";

fn active_session() -> Session {
    let mut session = Session::new();
    let m = ClientMessage::Hello { uaid: None, channel_ids: None, use_webpush: None };
    session.on_client_message(m, 0, Vec::new());
    let resp = autopush_core::protocol::HelloResponse {
        uaid: Some(id_of(UAID)),
        message_month: chars_of("2019-01"),
        reset_uaid: false,
        rotate_message_table: false,
    };
    session.on_hello_outcome(CallOutcome::Response(resp));
    assert_eq!(session.state, SessionState::Active);
    session
}

#[test]
fn scenario_hello_round() {
    // client sends its hello
    let text = chars_of("{\"messageType\":\"hello\",\"channelIDs\":[],\"use_webpush\":true}");
    let m = decode_client_message(&text).unwrap();
    let mut session = Session::new();
    let action = session.on_client_message(m, 10500, Vec::new());
    assert_eq!(session.state, SessionState::HelloPending);

    // the session issues the hello call over the bridge
    let req = match action {
        SessionAction::IssueHello(req) => req,
        other => panic!("expected a hello call, got {:?}", other),
    };
    let server = Server::new();
    let mut handle = server.initiate(&req).unwrap();
    assert_eq!(
        string_of(handle.input().unwrap()),
        "{\"command\":\"hello\",\"connected_at\":10500,\"uaid\":null}"
    );

    // the external service answers
    let answer = format!(
        "{{\"uaid\":\"{}\",\"message_month\":\"2019-01\",\"reset_uaid\":false,\"rotate_message_table\":false}}",
        UAID
    );
    handle.complete(&chars_of(&answer)).unwrap();

    // the session consumes the outcome and emits the server hello
    let out = session.on_hello_outcome(handle.resolve());
    assert_eq!(session.state, SessionState::Active);
    match out {
        HelloAction::Emit(msg) => {
            assert_eq!(
                string_of(&encode_server_message(&msg)),
                format!(
                    "{{\"messageType\":\"hello\",\"uaid\":\"{}\",\"status\":200,\"use_webpush\":true}}",
                    UAID
                )
            );
        },
        other => panic!("expected a server hello, got {:?}", other),
    }
}

#[test]
fn scenario_cancelled_hello() {
    // the call backing the hello is destroyed before completion
    let mut session = Session::new();
    let m = ClientMessage::Hello { uaid: None, channel_ids: None, use_webpush: Some(true) };
    session.on_client_message(m, 0, Vec::new());
    let server = Server::new();
    let handle = server.hello(10, 0, None).unwrap();
    let outcome = handle.resolve();
    assert_eq!(outcome, CallOutcome::Cancelled);
    let action = session.on_hello_outcome(outcome);
    assert_eq!(action, HelloAction::Terminate(500));
    assert_ne!(session.state, SessionState::Active);
}

#[test]
fn scenario_ack_unknown_channel() {
    let mut session = active_session();
    let text = chars_of(
        "{\"messageType\":\"ack\",\"updates\":[{\"channelID\":\"00000000-dead-beef-0000-000000000000\",\"version\":\"1\"}]}",
    );
    let m = decode_client_message(&text).unwrap();
    let action = session.on_client_message(m, 0, Vec::new());
    // accepted and ignored, not rejected
    assert_eq!(action, SessionAction::NoReply);
    assert_eq!(session.state, SessionState::Active);
}

#[test]
fn hello_status_200_activates() {
    let mut session = Session::new();
    session.on_client_message(
        ClientMessage::Hello { uaid: None, channel_ids: None, use_webpush: None },
        0,
        Vec::new(),
    );
    let resp = autopush_core::protocol::HelloResponse {
        uaid: Some(id_of(UAID)),
        message_month: chars_of("m"),
        reset_uaid: false,
        rotate_message_table: false,
    };
    match session.on_hello_outcome(CallOutcome::Response(resp)) {
        HelloAction::Emit(ServerMessage::Hello { status, .. }) => assert_eq!(status, 200),
        other => panic!("expected a status-200 hello, got {:?}", other),
    }
    assert_eq!(session.state, SessionState::Active);
}

#[test]
fn hello_failure_does_not_activate() {
    let mut session = Session::new();
    session.on_client_message(
        ClientMessage::Hello { uaid: None, channel_ids: None, use_webpush: None },
        0,
        Vec::new(),
    );
    let action = session.on_hello_outcome(CallOutcome::ApplicationError(chars_of("no")));
    assert_eq!(action, HelloAction::Terminate(503));
    assert_ne!(session.state, SessionState::Active);

    let mut session2 = Session::new();
    session2.on_client_message(
        ClientMessage::Hello { uaid: None, channel_ids: None, use_webpush: None },
        0,
        Vec::new(),
    );
    let action2 = session2.on_hello_outcome(CallOutcome::DeserializationError);
    assert_eq!(action2, HelloAction::Terminate(500));
    assert_ne!(session2.state, SessionState::Active);
}

#[test]
fn register_twice_is_idempotent() {
    let mut session = active_session();
    let first = session.on_client_message(
        ClientMessage::Register { channel_id: id_of("c1") },
        0,
        chars_of("https://example.com/push/one"),
    );
    assert_eq!(
        first,
        SessionAction::Reply(ServerMessage::Register {
            channel_id: id_of("c1"),
            status: 200,
            push_endpoint: chars_of("https://example.com/push/one"),
        })
    );
    // the second register is answered independently, with its fresh endpoint
    let second = session.on_client_message(
        ClientMessage::Register { channel_id: id_of("c1") },
        0,
        chars_of("https://example.com/push/two"),
    );
    assert_eq!(
        second,
        SessionAction::Reply(ServerMessage::Register {
            channel_id: id_of("c1"),
            status: 200,
            push_endpoint: chars_of("https://example.com/push/two"),
        })
    );
    assert_eq!(session.state, SessionState::Active);
}

#[test]
fn unregister_replies_with_status() {
    let mut session = active_session();
    let action = session.on_client_message(
        ClientMessage::Unregister { channel_id: id_of("c1") },
        0,
        Vec::new(),
    );
    assert_eq!(
        action,
        SessionAction::Reply(ServerMessage::Unregister { channel_id: id_of("c1"), status: 200 })
    );
}

#[test]
fn message_in_wrong_state_terminates() {
    let mut session = Session::new();
    let action = session.on_client_message(
        ClientMessage::Register { channel_id: id_of("c1") },
        0,
        chars_of("e"),
    );
    assert_eq!(action, SessionAction::Terminate);
    assert_eq!(session.state, SessionState::Unauthenticated);
}

#[test]
fn notification_only_while_active() {
    let n = Notification {
        channel_id: id_of("c1"),
        version: chars_of("v1"),
        ttl: 60,
        topic: None,
        timestamp: 3,
        data: None,
        headers: None,
    };
    let idle = Session::new();
    assert_eq!(idle.notify(n.clone()), None);
    let active = active_session();
    assert_eq!(
        active.notify(n.clone()),
        Some(ServerMessage::Notification(n))
    );
}
