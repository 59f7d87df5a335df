//! The envelope codecs on concrete values: exact wire texts, round trips,
//! padding, escaping, and rejection of malformed input.

use ibc_dispatch::ack::Ack;
use ibc_dispatch::dispatcher;
use ibc_dispatch::echo;
use ibc_dispatch::example;

#[test]
fn ack_success_is_fixed_marker() {
    // the no-data success always carries the one-byte marker `1` (0x31)
    let first = Ack::success();
    let second = Ack::success();
    assert_eq!(first, "{\"result\":\"MQ==\"}");
    assert_eq!(first, second);
    match Ack::decode(&first) {
        Some(Ack::Result(d)) => assert_eq!(d, vec![49u8]),
        other => panic!("expected success, got {:?}", other),
    }
    match Ack::decode(&second) {
        Some(Ack::Result(d)) => assert_eq!(d, vec![49u8]),
        other => panic!("expected success, got {:?}", other),
    }
}

#[test]
fn ack_error_round_trip() {
    let enc = Ack::fail("oops");
    assert_eq!(enc, "{\"error\":\"oops\"}");
    match Ack::decode(&enc) {
        Some(Ack::Error(e)) => assert_eq!(e, "oops"),
        other => panic!("expected error, got {:?}", other),
    }
}

#[test]
fn ack_error_escapes_and_round_trips() {
    let reason = "a\"b\\c\nd";
    let enc = Ack::fail(reason);
    assert_eq!(enc, "{\"error\":\"a\\\"b\\\\c\\u000ad\"}");
    match Ack::decode(&enc) {
        Some(Ack::Error(e)) => assert_eq!(e, reason),
        other => panic!("expected error, got {:?}", other),
    }
}

#[test]
fn ack_payload_round_trip_all_paddings() {
    // payload lengths covering every base64 padding shape
    for payload in [
        b"".to_vec(),
        b"h".to_vec(),
        b"hi".to_vec(),
        b"hey".to_vec(),
        b"heya".to_vec(),
        vec![0u8, 255u8, 7u8, 128u8],
    ] {
        let enc = Ack::success_data(&payload);
        match Ack::decode(&enc) {
            Some(Ack::Result(d)) => assert_eq!(d, payload),
            other => panic!("expected success, got {:?}", other),
        }
    }
}

#[test]
fn ack_payload_exact_base64() {
    assert_eq!(Ack::success_data(&b"hi".to_vec()), "{\"result\":\"aGk=\"}");
    assert_eq!(Ack::success_data(&b"abc".to_vec()), "{\"result\":\"YWJj\"}");
    assert_eq!(Ack::success_data(&b"".to_vec()), "{\"result\":\"\"}");
}

#[test]
fn ack_decode_rejects_malformed() {
    for bad in [
        "",
        "{}",
        "{\"result\":\"MQ==\"} ",
        "{\"result\":\"MQ=\"}",
        "{\"result\":\"!!!!\"}",
        "{\"result\":\"MQ==\"",
        "{\"error\":\"unterminated",
        "{\"error\":\"bad\tcontrol\"}",
        "[\"result\"]",
    ] {
        assert!(Ack::decode(bad).is_none(), "accepted {:?}", bad);
    }
}

#[test]
fn ack_unwrap_and_parse() {
    let enc = Ack::success_data(&b"hey".to_vec());
    assert_eq!(Ack::parse(&enc), b"hey".to_vec());
    let a = Ack::decode(&enc).unwrap();
    assert_eq!(a.unwrap(), b"hey".to_vec());
    let e = Ack::decode(&Ack::fail("why")).unwrap();
    assert_eq!(e.unwrap_err(), "why");
}

#[test]
fn packet_encode_exact_text() {
    let p = dispatcher::IbcExecuteMsg::Dispatch {
        msg: b"abc".to_vec(),
        target_address: "tgt".to_string(),
        channel: None,
    };
    assert_eq!(p.encode(), "{\"dispatch\":{\"msg\":\"YWJj\",\"target_address\":\"tgt\"}}");
    let q = dispatcher::IbcExecuteMsg::Dispatch {
        msg: b"abc".to_vec(),
        target_address: "tgt".to_string(),
        channel: Some("channel-1".to_string()),
    };
    assert_eq!(
        q.encode(),
        "{\"dispatch\":{\"msg\":\"YWJj\",\"target_address\":\"tgt\",\"channel\":\"channel-1\"}}"
    );
}

#[test]
fn packet_round_trip() {
    for p in [
        dispatcher::IbcExecuteMsg::Dispatch {
            msg: b"payload".to_vec(),
            target_address: "remote contract \"x\"".to_string(),
            channel: None,
        },
        dispatcher::IbcExecuteMsg::Dispatch {
            msg: vec![],
            target_address: "".to_string(),
            channel: Some("channel-7".to_string()),
        },
    ] {
        let enc = p.encode();
        assert_eq!(dispatcher::IbcExecuteMsg::decode(&enc), Some(p));
    }
}

#[test]
fn packet_decode_rejects_malformed() {
    for bad in [
        "",
        "{\"dispatch\":{}}",
        "{\"dispatch\":{\"msg\":\"YWJj\"}}",
        "{\"dispatch\":{\"msg\":\"YWJj\",\"target_address\":\"tgt\"}} ",
        "{\"dispatch\":{\"msg\":\"?\",\"target_address\":\"tgt\"}}",
        "{\"ping\":{}}",
    ] {
        assert!(
            dispatcher::IbcExecuteMsg::decode(bad).is_none(),
            "accepted {:?}",
            bad
        );
    }
}

#[test]
fn dispatch_request_round_trip() {
    let m = dispatcher::ExecuteMsg::Dispatch {
        channel: "channel-1".to_string(),
        target_address: "tgt".to_string(),
        msg: b"hi".to_vec(),
    };
    let enc = m.encode();
    assert_eq!(
        enc,
        "{\"dispatch\":{\"channel\":\"channel-1\",\"target_address\":\"tgt\",\"msg\":\"aGk=\"}}"
    );
    assert_eq!(dispatcher::ExecuteMsg::decode(&enc), Some(m));
    assert!(dispatcher::ExecuteMsg::decode("{\"dispatch\":{\"channel\":\"c\"}}").is_none());
}

#[test]
fn ping_codec() {
    let p = example::IbcExecuteMsg::Ping {};
    assert_eq!(p.encode(), "{\"ping\":{}}");
    assert_eq!(example::IbcExecuteMsg::decode("{\"ping\":{}}"), Some(example::IbcExecuteMsg::Ping {}));
    assert!(example::IbcExecuteMsg::decode("{\"ping\":{} }").is_none());
    assert!(example::IbcExecuteMsg::decode("{\"pong\":{}}").is_none());
    assert!(example::IbcExecuteMsg::decode("").is_none());
}

#[test]
fn ping_response_codec() {
    let r = example::IbcPingResponse { result: "pong".to_string() };
    let enc = r.encode();
    assert_eq!(enc, "{\"result\":\"pong\"}");
    assert_eq!(example::IbcPingResponse::decode(&enc), Some(r));
    assert!(example::IbcPingResponse::decode("{\"result\":\"pong\"").is_none());
}

#[test]
fn echo_command_codec() {
    let m = echo::ExecuteMsg::Echo { echo: "Hello, world!".to_string() };
    let enc = m.encode();
    assert_eq!(enc, "{\"echo\":{\"echo\":\"Hello, world!\"}}");
    assert_eq!(echo::ExecuteMsg::decode(&enc), Some(m));
    assert!(echo::ExecuteMsg::decode("{\"echo\":{\"echo\":1}}").is_none());
}
