use bytes::Bytes;
use rust_ws_server::channel::OutboundMessage;
use rust_ws_server::config::Config;
use rust_ws_server::protocol::{ClientEvent, EncodeError};
use rust_ws_server::server::{dispatch_event, send_encoded, send_error, Session};
use rust_ws_server::state::AppState;
use serde_json::Value;
use std::time::Duration;
use tokio::sync::mpsc;

fn base_config() -> Config {
    Config {
        bind_addr: "0.0.0.0:0".to_owned(),
        max_connections: 10,
        client_queue_capacity: 16,
        topic_channel_capacity: 32,
        max_text_bytes: 64 * 1024,
        max_messages_per_second: 100,
        message_burst: 200,
        idle_timeout: Duration::from_secs(5),
        heartbeat_interval: Duration::from_secs(60),
        json_logs: false,
        jwt_secret: None,
        jwt_public_key: None,
        jwt_issuer: None,
        ip_max_concurrent: None,
        ip_connection_rate: None,
        ip_rate_burst: None,
        trust_proxy_headers: false,
        tenant_max_connections: None,
        tenant_max_messages_per_second: None,
        tenant_message_burst: None,
    }
}

fn session(queue: mpsc::Sender<OutboundMessage>) -> Session {
    Session {
        topic_key: "t1:room".to_owned(),
        tenant_id: "t1".to_owned(),
        client_id: "alice".to_owned(),
        connection_id: 1,
        queue,
    }
}

fn event_in(message: OutboundMessage) -> Value {
    match message {
        OutboundMessage::Binary(bytes) => rmp_serde::from_slice(&bytes).unwrap(),
        other => panic!("unexpected message: {other:?}"),
    }
}

fn unpackable() -> EncodeError {
    EncodeError::Payload(rmp_serde::encode::Error::Syntax("out of memory".to_owned()))
}

#[test]
fn events_that_cannot_be_encoded_are_answered() {
    let mut state = AppState::new(base_config());
    let (tx, mut rx) = state.open_queue();
    let session = session(tx);
    let publish = ClientEvent::Publish { topic: None, request_id: None, payload: Value::Null };
    dispatch_event(&mut state, &session, &publish, Err(unpackable()));
    let err = event_in(rx.try_recv().unwrap());
    assert_eq!(err["code"], "encode_failed");
    assert_eq!(err["message"], "failed to encode message");
    assert_eq!(state.metrics.protocol_errors, 1);
    let direct =
        ClientEvent::Direct { to: "bob".to_owned(), request_id: None, payload: Value::Null };
    dispatch_event(&mut state, &session, &direct, Err(unpackable()));
    let err = event_in(rx.try_recv().unwrap());
    assert_eq!(err["code"], "encode_failed");
    assert_eq!(err["message"], "failed to encode direct message");
    assert_eq!(state.metrics.protocol_errors, 2);
    let ping = ClientEvent::Ping { request_id: None, payload: None };
    dispatch_event(&mut state, &session, &ping, Err(EncodeError::TextTooLong));
    let err = event_in(rx.try_recv().unwrap());
    assert_eq!(err["code"], "encode_failed");
    assert_eq!(err["message"], "failed to encode pong");
    assert_eq!(state.metrics.protocol_errors, 2);
}

#[test]
fn encoded_events_are_handed_on_as_they_are() {
    let mut state = AppState::new(base_config());
    let (tx, mut rx) = state.open_queue();
    let session = session(tx);
    let mut own = state.subscribe("t1:room");
    let mut named = state.subscribe("t1:other");
    let publish = ClientEvent::Publish { topic: None, request_id: None, payload: Value::Null };
    dispatch_event(&mut state, &session, &publish, Ok(vec![1]));
    assert_eq!(own.try_recv().unwrap(), Bytes::from(vec![1u8]));
    let publish = ClientEvent::Publish {
        topic: Some("//other".to_owned()),
        request_id: None,
        payload: Value::Null,
    };
    dispatch_event(&mut state, &session, &publish, Ok(vec![2]));
    assert_eq!(named.try_recv().unwrap(), Bytes::from(vec![2u8]));
    assert!(own.try_recv().is_err());
    let ping = ClientEvent::Ping { request_id: None, payload: None };
    dispatch_event(&mut state, &session, &ping, Ok(vec![3]));
    assert!(matches!(rx.try_recv().unwrap(), OutboundMessage::Binary(b) if b.to_vec() == vec![3]));
}

#[test]
fn messages_that_are_not_taken_are_dropped() {
    let mut state = AppState::new(base_config());
    let (tx, rx) = mpsc::channel::<OutboundMessage>(1);
    assert!(send_encoded(&tx, Bytes::from_static(b"1"), &mut state));
    assert_eq!(state.metrics.dropped_messages, 0);
    assert!(!send_encoded(&tx, Bytes::from_static(b"2"), &mut state));
    assert_eq!(state.metrics.dropped_messages, 1);
    drop(rx);
    assert!(!send_encoded(&tx, Bytes::from_static(b"3"), &mut state));
    assert_eq!(state.metrics.dropped_messages, 2);
    send_error(&tx, "c", "m", &mut state);
    assert_eq!(state.metrics.dropped_messages, 3);
}

#[test]
fn errors_reach_the_client() {
    let mut state = AppState::new(base_config());
    let (tx, mut rx) = mpsc::channel::<OutboundMessage>(1);
    send_error(&tx, "some_code", "some message", &mut state);
    let expected: Value =
        serde_json::from_str(r#"{"kind":"error","code":"some_code","message":"some message"}"#)
            .unwrap();
    assert_eq!(event_in(rx.try_recv().unwrap()), expected);
}
