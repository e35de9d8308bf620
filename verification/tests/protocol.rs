use rust_ws_server::members::{is_repeated, read_member_names};
use rust_ws_server::msgpack::push_str;
use rust_ws_server::protocol::{
    assemble_event, client_event_from_value, encode_server_event, parse_client_event,
    parse_client_event_binary, ClientEvent, EncodeError, ParseError, ServerEvent,
};
use serde_json::Value;

fn json(text: &str) -> Value {
    serde_json::from_str(text).unwrap()
}

/// The bytes that the MessagePack library writes for the tree of `text`.
fn packed(text: &str) -> Vec<u8> {
    rmp_serde::to_vec_named(&json(text)).unwrap()
}

/// The value of a frame, read by the MessagePack library.
fn unpacked(frame: &[u8]) -> Value {
    rmp_serde::from_slice(frame).unwrap()
}

#[test]
fn ready_frame_is_exact() {
    let event = ServerEvent::Ready { topic: "ab", client_id: "c" };
    let mut expected = vec![0x83, 0xa4];
    expected.extend_from_slice(b"kind");
    expected.push(0xa5);
    expected.extend_from_slice(b"ready");
    expected.push(0xa5);
    expected.extend_from_slice(b"topic");
    expected.push(0xa2);
    expected.extend_from_slice(b"ab");
    expected.push(0xa9);
    expected.extend_from_slice(b"client_id");
    expected.push(0xa1);
    expected.extend_from_slice(b"c");
    assert_eq!(encode_server_event(&event).unwrap(), expected);
}

#[test]
fn frames_are_read_back() {
    let payload = json(r#"{"text":"hello","n":[1,-2,3.5,null,true]}"#);
    let message = ServerEvent::Message {
        topic: "room",
        from: "alice",
        request_id: Some("1"),
        payload: &payload,
    };
    let value = unpacked(&encode_server_event(&message).unwrap());
    assert_eq!(
        value,
        json(
            r#"{"kind":"message","topic":"room","from":"alice","request_id":"1",
                "payload":{"text":"hello","n":[1,-2,3.5,null,true]}}"#
        )
    );
    let direct = ServerEvent::DirectMessage {
        from: "alice",
        to: "bob",
        request_id: None,
        payload: &payload,
    };
    let value = unpacked(&encode_server_event(&direct).unwrap());
    assert_eq!(
        value,
        json(
            r#"{"kind":"direct_message","from":"alice","to":"bob","request_id":null,
                "payload":{"text":"hello","n":[1,-2,3.5,null,true]}}"#
        )
    );
    let pong = ServerEvent::Pong { request_id: Some("2"), payload: None };
    let value = unpacked(&encode_server_event(&pong).unwrap());
    assert_eq!(value, json(r#"{"kind":"pong","request_id":"2","payload":null}"#));
    let pong = ServerEvent::Pong { request_id: None, payload: Some(&payload) };
    assert_eq!(unpacked(&encode_server_event(&pong).unwrap())["payload"], payload);
    let error = ServerEvent::Error { code: "c", message: "m" };
    let value = unpacked(&encode_server_event(&error).unwrap());
    assert_eq!(value, json(r#"{"kind":"error","code":"c","message":"m"}"#));
}

#[test]
fn frames_differ_where_events_do() {
    let one = ServerEvent::Ready { topic: "ab", client_id: "c" };
    let two = ServerEvent::Ready { topic: "a", client_id: "bc" };
    assert_ne!(encode_server_event(&one).unwrap(), encode_server_event(&two).unwrap());
    let absent = ServerEvent::Pong { request_id: None, payload: None };
    let empty = ServerEvent::Pong { request_id: Some(""), payload: None };
    assert_ne!(encode_server_event(&absent).unwrap(), encode_server_event(&empty).unwrap());
}

#[test]
fn payloads_that_could_not_be_packed_have_no_frame() {
    let payload = Value::Null;
    let event = ServerEvent::Message { topic: "t", from: "f", request_id: None, payload: &payload };
    let fault = rmp_serde::encode::Error::Syntax("out of memory".to_owned());
    assert!(matches!(
        assemble_event(&event, Err(fault)),
        Err(EncodeError::Payload(rmp_serde::encode::Error::Syntax(reason)))
            if reason == "out of memory"
    ));
    let frame = assemble_event(&event, Ok(vec![0xc3])).unwrap();
    assert_eq!(unpacked(&frame)["payload"], Value::Bool(true));
}

#[test]
fn strings_of_every_length_class_are_packed_like_the_library_does() {
    for n in [0usize, 1, 31, 32, 33, 255, 256, 257, 65535, 65536, 65537, 70000] {
        let text = "x".repeat(n);
        let mut out = Vec::new();
        assert!(push_str(&mut out, &text));
        assert_eq!(out, rmp_serde::to_vec_named(&Value::from(text)).unwrap());
    }
    let text = "é水🦀";
    let mut out = vec![7];
    assert!(push_str(&mut out, text));
    let mut expected = vec![7, 0xa9];
    expected.extend_from_slice(text.as_bytes());
    assert_eq!(out, expected);
}

#[test]
fn publications_are_read() {
    let event = parse_client_event(
        r#"{"kind":"publish","topic":"room-a","request_id":"1","payload":{"text":"hello"}}"#,
    )
    .unwrap();
    match event {
        ClientEvent::Publish { topic, request_id, payload } => {
            assert_eq!(topic.as_deref(), Some("room-a"));
            assert_eq!(request_id.as_deref(), Some("1"));
            assert_eq!(payload, json(r#"{"text":"hello"}"#));
        }
        other => panic!("unexpected event: {other:?}"),
    }
    match parse_client_event(r#"{"kind":"publish","payload":null,"extra":1}"#).unwrap() {
        ClientEvent::Publish { topic, request_id, payload } => {
            assert_eq!(topic, None);
            assert_eq!(request_id, None);
            assert_eq!(payload, Value::Null);
        }
        other => panic!("unexpected event: {other:?}"),
    }
}

#[test]
fn direct_messages_are_read() {
    let text = r#"{"kind":"direct","to":"bob","request_id":"3","payload":{"text":"hello bob"}}"#;
    match parse_client_event(text).unwrap() {
        ClientEvent::Direct { to, request_id, payload } => {
            assert_eq!(to, "bob");
            assert_eq!(request_id.as_deref(), Some("3"));
            assert_eq!(payload["text"], "hello bob");
        }
        other => panic!("unexpected event: {other:?}"),
    }
    assert!(parse_client_event(r#"{"kind":"direct","payload":1}"#).is_err());
    assert!(parse_client_event(r#"{"kind":"direct","to":null,"payload":1}"#).is_err());
}

#[test]
fn pings_are_read() {
    match parse_client_event(r#"{"kind":"ping","request_id":"2","payload":null}"#).unwrap() {
        ClientEvent::Ping { request_id, payload } => {
            assert_eq!(request_id.as_deref(), Some("2"));
            assert_eq!(payload, None);
        }
        other => panic!("unexpected event: {other:?}"),
    }
    match parse_client_event(r#"{"kind":"ping","payload":0}"#).unwrap() {
        ClientEvent::Ping { request_id, payload } => {
            assert_eq!(request_id, None);
            assert_eq!(payload, Some(Value::from(0)));
        }
        other => panic!("unexpected event: {other:?}"),
    }
    assert!(matches!(
        parse_client_event(r#"{"kind":"ping"}"#).unwrap(),
        ClientEvent::Ping { request_id: None, payload: None }
    ));
}

#[test]
fn other_texts_are_no_events() {
    for text in [
        "",
        "null",
        "7",
        "{}",
        "{\"kind\":\"publish\"",
        r#"{"kind":"publish"}"#,
        r#"{"kind":"Publish","payload":1}"#,
        r#"{"kind":7,"payload":1}"#,
        r#"{"kind":"publish","topic":7,"payload":1}"#,
        r#"{"kind":"publish","request_id":[],"payload":1}"#,
        r#"{"kind":"shout","payload":1}"#,
    ] {
        assert_eq!(parse_client_event(text).unwrap_err(), ParseError::InvalidJson, "{text}");
    }
}

#[test]
fn fields_given_twice_are_refused() {
    for text in [
        r#"{"kind":"ping","kind":"ping"}"#,
        r#"{"kind":"ping","payload":1,"payload":1}"#,
        r#"{"kind":"ping","request_id":"a" , "payload":{"x":[1]}, "request_id"  :null}"#,
        r#"{"kind":"publish","topic":"a","topic":"b","payload":1}"#,
        r#"{"kind":"publish","t\u006fpic":"a","payload":1,"topic":"b"}"#,
        r#"{"to":"a","kind":"direct","to":"a","payload":1}"#,
    ] {
        assert_eq!(parse_client_event(text).unwrap_err(), ParseError::InvalidJson, "{text}");
    }
}

#[test]
fn other_members_may_come_twice() {
    for text in [
        r#"{"kind":"ping","extra":1,"extra":2}"#,
        r#"{"kind":"ping","topic":1,"topic":2,"to":3,"to":4}"#,
        r#"{"kind":"ping","payload":{"a":1,"a":2,"payload":3,"kind":"x"}}"#,
        r#"{"kind":"ping","request_id":"payload","payload":"payload"}"#,
        r#"{"kind":"ping","payload":["kind",{"kind":1},"\",\"kind\":"]}"#,
        r#"["ping","kind","kind"]"#,
    ] {
        assert!(parse_client_event(text).is_ok(), "{text}");
    }
}

#[test]
fn member_names_are_read_from_texts() {
    let names = read_member_names(r#" {"a":1, "b" : {"c":[{"d":"e"}]} ,"f\"\n":"g","a":"h:"}"#);
    let expected: Vec<Option<String>> =
        ["a", "b", "f\"\n", "a"].iter().map(|name| Some(name.to_string())).collect();
    assert_eq!(names, expected);
    assert!(is_repeated(&names, "a"));
    assert!(!is_repeated(&names, "b"));
    assert!(!is_repeated(&names, "c"));
    assert!(read_member_names("[1,\"a\",{\"b\":2}]").is_empty());
    assert!(read_member_names("").is_empty());
}

#[test]
fn binary_messages_are_read() {
    let raw = packed(r#"{"kind":"publish","request_id":"r1","payload":{"text":"hello msgpack"}}"#);
    match parse_client_event_binary(&raw).unwrap() {
        ClientEvent::Publish { topic, request_id, payload } => {
            assert_eq!(topic, None);
            assert_eq!(request_id.as_deref(), Some("r1"));
            assert_eq!(payload["text"], "hello msgpack");
        }
        other => panic!("unexpected event: {other:?}"),
    }
    assert_eq!(parse_client_event_binary(&[]).unwrap_err(), ParseError::InvalidMsgpack);
    assert_eq!(parse_client_event_binary(&[0xc1]).unwrap_err(), ParseError::InvalidMsgpack);
    assert_eq!(
        parse_client_event_binary(&packed(r#"{"kind":"nothing"}"#)).unwrap_err(),
        ParseError::InvalidMsgpack
    );
}

#[test]
fn events_can_come_as_arrays() {
    match client_event_from_value(&json(r#"["direct","bob",null,[1]]"#)) {
        Some(ClientEvent::Direct { to, request_id, payload }) => {
            assert_eq!(to, "bob");
            assert_eq!(request_id, None);
            assert_eq!(payload, json("[1]"));
        }
        other => panic!("unexpected event: {other:?}"),
    }
    match client_event_from_value(&json(r#"["publish","t","r",1]"#)) {
        Some(ClientEvent::Publish { topic, request_id, payload }) => {
            assert_eq!(topic.as_deref(), Some("t"));
            assert_eq!(request_id.as_deref(), Some("r"));
            assert_eq!(payload, Value::from(1));
        }
        other => panic!("unexpected event: {other:?}"),
    }
    assert!(client_event_from_value(&json(r#"["ping",null]"#)).is_none());
    assert!(client_event_from_value(&json(r#"["ping",null,null,null]"#)).is_none());
    assert!(client_event_from_value(&json(r#"["ping",null,null]"#)).is_some());
}

#[test]
fn members_of_any_name_are_ignored() {
    let read = |raw: &str| match parse_client_event(raw) {
        Ok(ClientEvent::Ping { request_id, payload }) => Some((request_id, payload)),
        _ => None,
    };
    let expected = Some((Some("1".to_owned()), None));
    assert_eq!(read(r#"{"$serde_json::private::RawValue":"x","kind":"ping","request_id":"1"}"#), expected);
    assert_eq!(read(r#"{"$serde_json::private::RawValue":5,"kind":"ping","request_id":"1"}"#), expected);
    assert_eq!(
        read(r#"{"\u0024serde_json::private::RawValue":5,"kind":"ping","request_id":"1"}"#),
        expected
    );
    assert_eq!(
        read(r#"{"kind":"ping","x":{"$serde_json::private::RawValue":5},"request_id":"1"}"#),
        expected
    );
    // It is no way to write a field otherwise, either.
    assert_eq!(read(r#"{"$serde_json::private::RawValue":"{\"kind\":\"ping\"}"}"#), None);
    assert_eq!(read(r#"{"kind":{"$serde_json::private::RawValue":"\"ping\""}}"#), None);
    assert_eq!(
        read(r#"{"kind":"ping","request_id":{"$serde_json::private::RawValue":"null"}}"#),
        None
    );
    // As a text it is one like any other.
    assert_eq!(
        read(r#"{"kind":"ping","request_id":"$serde_json::private::RawValue"}"#),
        Some((Some("$serde_json::private::RawValue".to_owned()), None))
    );
    // What a payload is, its own text tells.
    assert_eq!(
        read(r#"{"kind":"ping","payload":{"$serde_json::private::RawValue":"[1]"}}"#),
        Some((None, Some(json("[1]"))))
    );
    assert_eq!(
        read(r#"["ping",null,{"$serde_json::private::RawValue":"[1]"}]"#),
        Some((None, Some(json("[1]"))))
    );
    assert_eq!(read(r#"{"kind":"ping","payload":{"$serde_json::private::RawValue":1}}"#), None);
    let marked = r#"{"$serde_json::private::RawValue":0,"kind":"ping","payload":{"a":[1.5,"b"]}}"#;
    assert_eq!(read(marked), Some((None, Some(json(r#"{"a":[1.5,"b"]}"#)))));
    assert_eq!(read(r#"{"$serde_json::private::RawValue":1e999,"kind":"ping"}"#), None);
}

#[test]
fn payloads_of_marked_texts_are_kept() {
    let publish = r#"["publish","room",null,{"$serde_json::private::RawValue":"{\"n\":1}"}]"#;
    assert!(matches!(
        parse_client_event(publish),
        Ok(ClientEvent::Publish { topic: Some(topic), request_id: None, payload })
            if topic == "room" && payload == json(r#"{"n":1}"#)
    ));
    let direct = r#"{"kind":"direct","to":"b","$serde_json::private::RawValue":[],"payload":7}"#;
    assert!(matches!(
        parse_client_event(direct),
        Ok(ClientEvent::Direct { to, request_id: None, payload })
            if to == "b" && payload == json("7")
    ));
}
