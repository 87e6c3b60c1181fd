use autopush_core::codec::{
    decode_client_message, decode_request, decode_response, encode_request, encode_server_message,
    Decoded, Request,
};
use autopush_core::protocol::{
    ClientMessage, Header, HelloResponse, Id, Notification, ServerMessage,
};

fn chars_of(s: &str) -> Vec<char> {
    s.chars().collect()
}

fn string_of(v: &[char]) -> String {
    v.iter().collect()
}

fn id_of(s: &str) -> Id {
    Id::new(chars_of(s)).unwrap()
}

const UAID: &str = "11111111-1111-1111-1111-111111111111";

#[test]
fn encode_hello_request_with_uaid() {
    let r = Request::Hello { connected_at: 10500, uaid: Some(id_of(UAID)) };
    let out = encode_request(&r);
    assert_eq!(
        string_of(&out),
        format!("{{\"command\":\"hello\",\"connected_at\":10500,\"uaid\":\"{}\"}}", UAID)
    );
}

#[test]
fn encode_hello_request_null_uaid() {
    let r = Request::Hello { connected_at: -25, uaid: None };
    let out = encode_request(&r);
    assert_eq!(string_of(&out), "{\"command\":\"hello\",\"connected_at\":-25,\"uaid\":null}");
}

#[test]
fn encode_checkstorage_request() {
    let r = Request::CheckStorage {
        uaid: id_of(UAID),
        message_month: chars_of("2019-01"),
        include_topic: true,
        timestamp: Some(1234567890123),
    };
    let out = encode_request(&r);
    assert_eq!(
        string_of(&out),
        format!(
            "{{\"command\":\"checkstorage\",\"uaid\":\"{}\",\"message_month\":\"2019-01\",\"include_topic\":true,\"timestamp\":1234567890123}}",
            UAID
        )
    );
}

#[test]
fn encode_checkstorage_request_null_timestamp() {
    let r = Request::CheckStorage {
        uaid: id_of("abc"),
        message_month: chars_of("2019-01"),
        include_topic: false,
        timestamp: None,
    };
    let out = encode_request(&r);
    assert_eq!(
        string_of(&out),
        "{\"command\":\"checkstorage\",\"uaid\":\"abc\",\"message_month\":\"2019-01\",\"include_topic\":false,\"timestamp\":null}"
    );
}

#[test]
fn round_trip_hello_request() {
    let r = Request::Hello { connected_at: 10500, uaid: Some(id_of(UAID)) };
    let out = encode_request(&r);
    assert_eq!(decode_request(&out), Some(r));
    let r2 = Request::Hello { connected_at: -9007199254740991, uaid: None };
    let out2 = encode_request(&r2);
    assert_eq!(decode_request(&out2), Some(r2));
}

#[test]
fn round_trip_checkstorage_request() {
    let r = Request::CheckStorage {
        uaid: id_of(UAID),
        message_month: chars_of("2019-01"),
        include_topic: true,
        timestamp: Some(-42),
    };
    let out = encode_request(&r);
    assert_eq!(decode_request(&out), Some(r));
}

#[test]
fn decode_request_rejects_unknown_command() {
    let s = chars_of("{\"command\":\"frobnicate\",\"connected_at\":1,\"uaid\":null}");
    assert_eq!(decode_request(&s), None);
}

#[test]
fn decode_response_application_error() {
    let s = chars_of("{\"error\":true,\"error_msg\":\"boom\"}");
    assert_eq!(decode_response(&s), Decoded::ApplicationError(chars_of("boom")));
}

#[test]
fn decode_response_error_false_falls_through() {
    let s = chars_of("{\"error\":false,\"error_msg\":\"x\"}");
    assert_eq!(decode_response(&s), Decoded::DeserializationError);
}

#[test]
fn decode_response_missing_required_field() {
    // rotate_message_table missing
    let s = chars_of(&format!(
        "{{\"uaid\":\"{}\",\"message_month\":\"2019-01\",\"reset_uaid\":false}}",
        UAID
    ));
    assert_eq!(decode_response(&s), Decoded::DeserializationError);
    // message_month missing
    let s2 = chars_of(&format!(
        "{{\"uaid\":\"{}\",\"reset_uaid\":false,\"rotate_message_table\":false}}",
        UAID
    ));
    assert_eq!(decode_response(&s2), Decoded::DeserializationError);
}

#[test]
fn decode_response_success() {
    let s = chars_of(&format!(
        "{{\"uaid\":\"{}\",\"message_month\":\"2019-01\",\"reset_uaid\":false,\"rotate_message_table\":false}}",
        UAID
    ));
    let expected = HelloResponse {
        uaid: Some(id_of(UAID)),
        message_month: chars_of("2019-01"),
        reset_uaid: false,
        rotate_message_table: false,
    };
    assert_eq!(decode_response(&s), Decoded::Response(expected));
}

#[test]
fn decode_response_with_whitespace() {
    let s = chars_of(&format!(
        "{{ \"uaid\": \"{}\", \"message_month\": \"2019-01\", \"reset_uaid\": true, \"rotate_message_table\": false }}",
        UAID
    ));
    let expected = HelloResponse {
        uaid: Some(id_of(UAID)),
        message_month: chars_of("2019-01"),
        reset_uaid: true,
        rotate_message_table: false,
    };
    assert_eq!(decode_response(&s), Decoded::Response(expected));
}

#[test]
fn decode_response_uaid_absent_or_null() {
    let s = chars_of(
        "{\"message_month\":\"m\",\"reset_uaid\":false,\"rotate_message_table\":true}",
    );
    match decode_response(&s) {
        Decoded::Response(h) => {
            assert_eq!(h.uaid, None);
            assert!(h.rotate_message_table);
        },
        other => panic!("expected a response, got {:?}", other),
    }
    let s2 = chars_of(
        "{\"uaid\":null,\"message_month\":\"m\",\"reset_uaid\":false,\"rotate_message_table\":false}",
    );
    match decode_response(&s2) {
        Decoded::Response(h) => assert_eq!(h.uaid, None),
        other => panic!("expected a response, got {:?}", other),
    }
}

#[test]
fn decode_client_hello_message() {
    let s = chars_of("{\"messageType\":\"hello\",\"channelIDs\":[],\"use_webpush\":true}");
    let m = decode_client_message(&s).unwrap();
    assert_eq!(
        m,
        ClientMessage::Hello {
            uaid: None,
            channel_ids: Some(Vec::new()),
            use_webpush: Some(true),
        }
    );
}

#[test]
fn decode_client_hello_with_uaid_and_channels() {
    let s = chars_of(&format!(
        "{{\"messageType\":\"hello\",\"uaid\":\"{}\",\"channelIDs\":[\"c1\",\"c2\"],\"use_webpush\":false}}",
        UAID
    ));
    let m = decode_client_message(&s).unwrap();
    assert_eq!(
        m,
        ClientMessage::Hello {
            uaid: Some(id_of(UAID)),
            channel_ids: Some(vec![id_of("c1"), id_of("c2")]),
            use_webpush: Some(false),
        }
    );
}

#[test]
fn decode_client_register_and_unregister() {
    let s = chars_of("{\"messageType\":\"register\",\"channelID\":\"c1\"}");
    assert_eq!(
        decode_client_message(&s),
        Some(ClientMessage::Register { channel_id: id_of("c1") })
    );
    let s2 = chars_of("{\"messageType\":\"unregister\",\"channelID\":\"c1\"}");
    assert_eq!(
        decode_client_message(&s2),
        Some(ClientMessage::Unregister { channel_id: id_of("c1") })
    );
}

#[test]
fn decode_client_ack_message() {
    let s = chars_of(
        "{\"messageType\":\"ack\",\"updates\":[{\"channelID\":\"c9\",\"version\":\"1\"}]}",
    );
    let m = decode_client_message(&s).unwrap();
    match m {
        ClientMessage::Ack { updates } => {
            assert_eq!(updates.len(), 1);
            assert_eq!(updates[0].channel_id, id_of("c9"));
            assert_eq!(updates[0].version, chars_of("1"));
        },
        other => panic!("expected an ack, got {:?}", other),
    }
}

#[test]
fn decode_client_rejects_unknown_discriminant() {
    let s = chars_of("{\"messageType\":\"purge\",\"channelID\":\"c1\"}");
    assert_eq!(decode_client_message(&s), None);
}

#[test]
fn decode_client_rejects_missing_field() {
    let s = chars_of("{\"messageType\":\"register\"}");
    assert_eq!(decode_client_message(&s), None);
}

#[test]
fn encode_server_hello_message() {
    let m = ServerMessage::Hello { uaid: id_of(UAID), status: 200, use_webpush: Some(true) };
    let out = encode_server_message(&m);
    assert_eq!(
        string_of(&out),
        format!("{{\"messageType\":\"hello\",\"uaid\":\"{}\",\"status\":200,\"use_webpush\":true}}", UAID)
    );
}

#[test]
fn encode_server_hello_omits_absent_webpush() {
    let m = ServerMessage::Hello { uaid: id_of("u"), status: 503, use_webpush: None };
    let out = encode_server_message(&m);
    assert_eq!(string_of(&out), "{\"messageType\":\"hello\",\"uaid\":\"u\",\"status\":503}");
}

#[test]
fn encode_server_register_message() {
    let m = ServerMessage::Register {
        channel_id: id_of("c1"),
        status: 200,
        push_endpoint: chars_of("https://example.com/push/abc"),
    };
    let out = encode_server_message(&m);
    assert_eq!(
        string_of(&out),
        "{\"messageType\":\"register\",\"channelID\":\"c1\",\"status\":200,\"pushEndpoint\":\"https://example.com/push/abc\"}"
    );
}

#[test]
fn encode_server_unregister_message() {
    let m = ServerMessage::Unregister { channel_id: id_of("c1"), status: 200 };
    let out = encode_server_message(&m);
    assert_eq!(
        string_of(&out),
        "{\"messageType\":\"unregister\",\"channelID\":\"c1\",\"status\":200}"
    );
}

#[test]
fn encode_notification_minimal() {
    let n = Notification {
        channel_id: id_of("c1"),
        version: chars_of("v1"),
        ttl: 60,
        topic: None,
        timestamp: 1550000000,
        data: None,
        headers: None,
    };
    let out = encode_server_message(&ServerMessage::Notification(n));
    assert_eq!(
        string_of(&out),
        "{\"messageType\":\"notification\",\"channelID\":\"c1\",\"version\":\"v1\",\"ttl\":60,\"timestamp\":1550000000}"
    );
}

#[test]
fn encode_notification_full() {
    let n = Notification {
        channel_id: id_of("c1"),
        version: chars_of("v1"),
        ttl: 0,
        topic: Some(chars_of("news")),
        timestamp: 7,
        data: Some(chars_of("payload")),
        headers: Some(vec![
            Header { name: chars_of("enc"), value: chars_of("aesgcm") },
            Header { name: chars_of("crypto-key"), value: chars_of("k") },
        ]),
    };
    let out = encode_server_message(&ServerMessage::Notification(n));
    assert_eq!(
        string_of(&out),
        "{\"messageType\":\"notification\",\"channelID\":\"c1\",\"version\":\"v1\",\"ttl\":0,\"topic\":\"news\",\"timestamp\":7,\"data\":\"payload\",\"headers\":{\"enc\":\"aesgcm\",\"crypto-key\":\"k\"}}"
    );
}

#[test]
fn id_rejects_text_that_needs_escaping() {
    assert!(Id::new(chars_of("")).is_none());
    assert!(Id::new(chars_of("a\"b")).is_none());
    assert!(Id::new(chars_of("a\\b")).is_none());
    assert!(Id::new(chars_of("a\nb")).is_none());
    assert!(Id::new(chars_of("ok-id")).is_some());
}

#[test]
fn encode_update_message() {
    let u = autopush_core::protocol::Update { channel_id: id_of("c1"), version: 42 };
    let out = autopush_core::codec::encode_update(&u);
    assert_eq!(string_of(&out), "{\"channelID\":\"c1\",\"version\":42}");
}

#[test]
fn round_trip_extreme_timestamps() {
    let r = Request::Hello { connected_at: i64::MIN, uaid: None };
    let out = encode_request(&r);
    assert_eq!(
        string_of(&out),
        "{\"command\":\"hello\",\"connected_at\":-9223372036854775808,\"uaid\":null}"
    );
    assert_eq!(decode_request(&out), Some(r));
    let r2 = Request::CheckStorage {
        uaid: id_of("u"),
        message_month: Vec::new(),
        include_topic: false,
        timestamp: Some(i64::MAX),
    };
    let out2 = encode_request(&r2);
    assert_eq!(decode_request(&out2), Some(r2));
}

#[test]
fn decode_response_error_members_reordered() {
    // the probe is a shape probe, not an order probe
    let s = chars_of("{\"error_msg\":\"boom\",\"error\":true}");
    assert_eq!(decode_response(&s), Decoded::ApplicationError(chars_of("boom")));
}

#[test]
fn decode_response_error_whitespace_before_colon() {
    let s = chars_of("{ \"error\" : true , \"error_msg\" : \"boom\" }");
    assert_eq!(decode_response(&s), Decoded::ApplicationError(chars_of("boom")));
}

#[test]
fn decode_response_members_reordered() {
    let s = chars_of(&format!(
        "{{\"rotate_message_table\":false,\"message_month\":\"2019-01\",\"uaid\":\"{}\",\"reset_uaid\":true}}",
        UAID
    ));
    let expected = HelloResponse {
        uaid: Some(id_of(UAID)),
        message_month: chars_of("2019-01"),
        reset_uaid: true,
        rotate_message_table: false,
    };
    assert_eq!(decode_response(&s), Decoded::Response(expected));
}

#[test]
fn decode_response_whitespace_before_colon() {
    let s = chars_of(
        "{\"message_month\" : \"m\", \"reset_uaid\" : false, \"rotate_message_table\" : true}",
    );
    match decode_response(&s) {
        Decoded::Response(h) => {
            assert_eq!(h.uaid, None);
            assert!(h.rotate_message_table);
        },
        other => panic!("expected a response, got {:?}", other),
    }
}

#[test]
fn decode_response_rejects_duplicate_member() {
    let s = chars_of(
        "{\"message_month\":\"a\",\"message_month\":\"b\",\"reset_uaid\":false,\"rotate_message_table\":false}",
    );
    assert_eq!(decode_response(&s), Decoded::DeserializationError);
}

#[test]
fn decode_response_rejects_unknown_member() {
    let s = chars_of(
        "{\"message_month\":\"m\",\"reset_uaid\":false,\"rotate_message_table\":false,\"extra\":true}",
    );
    assert_eq!(decode_response(&s), Decoded::DeserializationError);
}
