use jsonwebtoken::{encode, Algorithm, EncodingKey, Header};
use rust_ws_server::api::{
    api_direct, api_publish, deliver_encoded, extract_bearer, judge_caller, publish_encoded,
    resolve_identity, ApiReply, DirectBody, PublishBody,
};
use rust_ws_server::auth::{AuthError, AuthIdentity};
use rust_ws_server::channel::OutboundMessage;
use rust_ws_server::config::Config;
use rust_ws_server::protocol::EncodeError;
use rust_ws_server::state::AppState;
use serde_json::Value;
use std::time::{Duration, SystemTime, UNIX_EPOCH};
use tokio::sync::mpsc;

fn base_config() -> Config {
    Config {
        bind_addr: "0.0.0.0:0".to_owned(),
        max_connections: 10,
        client_queue_capacity: 16,
        topic_channel_capacity: 32,
        max_text_bytes: 64 * 1024,
        max_messages_per_second: 100,
        message_burst: 200,
        idle_timeout: Duration::from_secs(5),
        heartbeat_interval: Duration::from_secs(60),
        json_logs: false,
        jwt_secret: None,
        jwt_public_key: None,
        jwt_issuer: None,
        ip_max_concurrent: None,
        ip_connection_rate: None,
        ip_rate_burst: None,
        trust_proxy_headers: false,
        tenant_max_connections: None,
        tenant_max_messages_per_second: None,
        tenant_message_burst: None,
    }
}

fn auth_server() -> AppState {
    AppState::new(Config { jwt_secret: Some("s3cret".to_owned()), ..base_config() })
}

fn header_for(sub: &str, tenant_id: &str, expires_in: i64) -> String {
    let now = SystemTime::now().duration_since(UNIX_EPOCH).unwrap().as_secs() as i64;
    let mut claims = serde_json::Map::new();
    claims.insert("sub".to_owned(), Value::from(sub));
    claims.insert("tenant_id".to_owned(), Value::from(tenant_id));
    claims.insert("exp".to_owned(), Value::from(now + expires_in));
    let token = encode(
        &Header::new(Algorithm::HS256),
        &Value::Object(claims),
        &EncodingKey::from_secret(b"s3cret"),
    )
    .unwrap();
    format!("Bearer {token}")
}

fn publish_body(topic: Option<&str>) -> PublishBody {
    PublishBody {
        topic: topic.map(str::to_owned),
        request_id: Some("r1".to_owned()),
        payload: Value::from("hello"),
    }
}

fn direct_body(to: &str) -> DirectBody {
    DirectBody { to: to.to_owned(), request_id: None, payload: Value::from(1) }
}

#[test]
fn bearer_tokens_are_extracted() {
    assert_eq!(extract_bearer(None), None);
    assert_eq!(extract_bearer(Some("Bearer abc")), Some("abc"));
    assert_eq!(extract_bearer(Some("Bearer ")), Some(""));
    assert_eq!(extract_bearer(Some("bearer abc")), None);
    assert_eq!(extract_bearer(Some("Basic abc")), None);
}

#[test]
fn callers_are_identified() {
    let state = AppState::new(base_config());
    let caller = resolve_identity(&state.auth, None).unwrap();
    assert_eq!(caller.client_id, "api");
    assert_eq!(caller.tenant_id, "default");
    let state = auth_server();
    let header = header_for("alice", "t1", 3600);
    let caller = resolve_identity(&state.auth, Some(&header)).unwrap();
    assert_eq!(caller.client_id, "alice");
    assert_eq!(caller.tenant_id, "t1");
    let (status, error) = resolve_identity(&state.auth, None).unwrap_err();
    assert_eq!(status, 401);
    assert_eq!(error, "missing Authorization header\n");
    let (status, error) = resolve_identity(&state.auth, Some("Bearer x")).unwrap_err();
    assert_eq!(status, 401);
    assert_eq!(error, "invalid token: invalid token\n");
    let header = header_for("alice", "t1", -3600);
    let (_, error) = resolve_identity(&state.auth, Some(&header)).unwrap_err();
    assert_eq!(error, "invalid token: token expired\n");
}

#[test]
fn verdicts_are_put_in_words() {
    let (status, error) = judge_caller(Err(AuthError::IssuerMismatch)).unwrap_err();
    assert_eq!(status, 401);
    assert_eq!(error, "invalid token: token issuer mismatch\n");
    let identity = AuthIdentity { client_id: "c".to_owned(), tenant_id: "t".to_owned() };
    assert_eq!(judge_caller(Ok(identity)).unwrap().client_id, "c");
}

#[test]
fn callers_publish() {
    let mut state = AppState::new(base_config());
    let mut one = state.subscribe("default:room");
    let mut two = state.subscribe("default:room");
    let reply = api_publish(&mut state, None, &publish_body(Some(" /room")));
    assert!(matches!(reply, ApiReply::Published { receivers: 2 }));
    assert_eq!(reply.status(), 200);
    assert_eq!(reply.error(), None);
    let event: Value = rmp_serde::from_slice(&one.try_recv().unwrap()).unwrap();
    // The topic reads as the caller wrote it.
    let expected: Value = serde_json::from_str(
        r#"{"kind":"message","topic":" /room","from":"api","request_id":"r1","payload":"hello"}"#,
    )
    .unwrap();
    assert_eq!(event, expected);
    assert!(two.try_recv().is_ok());
    assert_eq!(state.metrics.messages_out, 2);
    assert_eq!(state.metrics.dropped_messages, 0);
}

#[test]
fn publications_without_a_topic_are_public() {
    let mut state = AppState::new(base_config());
    let mut public = state.subscribe("default:public");
    let reply = api_publish(&mut state, None, &publish_body(None));
    assert!(matches!(reply, ApiReply::Published { receivers: 1 }));
    let event: Value = rmp_serde::from_slice(&public.try_recv().unwrap()).unwrap();
    assert_eq!(event["topic"], "public");
}

#[test]
fn publications_to_nobody_are_dropped() {
    let mut state = AppState::new(base_config());
    let reply = api_publish(&mut state, None, &publish_body(Some("room")));
    assert!(matches!(reply, ApiReply::Published { receivers: 0 }));
    assert_eq!(state.metrics.messages_out, 0);
    assert_eq!(state.metrics.dropped_messages, 1);
}

#[test]
fn callers_publish_in_their_tenant() {
    let mut state = auth_server();
    let mut own = state.subscribe("t1:room");
    let mut foreign = state.subscribe("t2:room");
    let header = header_for("alice", "t1", 3600);
    let reply = api_publish(&mut state, Some(&header), &publish_body(Some("room")));
    assert!(matches!(reply, ApiReply::Published { receivers: 1 }));
    let event: Value = rmp_serde::from_slice(&own.try_recv().unwrap()).unwrap();
    assert_eq!(event["from"], "alice");
    assert!(foreign.try_recv().is_err());
}

#[test]
fn callers_without_a_token_are_refused() {
    let mut state = auth_server();
    let mut room = state.subscribe("default:room");
    let reply = api_publish(&mut state, None, &publish_body(Some("room")));
    assert_eq!(reply.status(), 401);
    assert_eq!(reply.error(), Some("missing Authorization header\n"));
    assert!(room.try_recv().is_err());
    let reply = api_direct(&mut state, Some("Basic x"), &direct_body("bob"));
    assert_eq!(reply.status(), 401);
    assert_eq!(reply.error(), Some("missing Authorization header\n"));
    assert_eq!(state.metrics.dropped_messages, 0);
}

#[test]
fn callers_write_to_clients() {
    let mut state = AppState::new(base_config());
    let (tx, mut rx) = mpsc::channel::<OutboundMessage>(16);
    state.register_client("bob".into(), "default".into(), 1, tx);
    let reply = api_direct(&mut state, None, &direct_body("bob"));
    assert!(matches!(reply, ApiReply::Delivered));
    assert_eq!(reply.status(), 200);
    assert_eq!(reply.error(), None);
    assert_eq!(state.metrics.messages_out, 1);
    let event: Value = match rx.try_recv().unwrap() {
        OutboundMessage::Binary(bytes) => rmp_serde::from_slice(&bytes).unwrap(),
        other => panic!("unexpected message: {other:?}"),
    };
    let expected: Value = serde_json::from_str(
        r#"{"kind":"direct_message","from":"api","to":"bob","request_id":null,"payload":1}"#,
    )
    .unwrap();
    assert_eq!(event, expected);
}

#[test]
fn clients_of_other_tenants_are_not_found() {
    let mut state = auth_server();
    let (tx, mut rx) = mpsc::channel::<OutboundMessage>(16);
    state.register_client("bob".into(), "t2".into(), 1, tx);
    let header = header_for("alice", "t1", 3600);
    let reply = api_direct(&mut state, Some(&header), &direct_body("bob"));
    assert!(matches!(reply, ApiReply::ClientNotFound));
    assert_eq!(reply.status(), 404);
    assert_eq!(reply.error(), Some("client_not_found"));
    assert_eq!(state.metrics.dropped_messages, 1);
    assert!(rx.try_recv().is_err());
}

#[test]
fn messages_that_cannot_be_encoded_are_reported() {
    let mut state = AppState::new(base_config());
    let fault = rmp_serde::encode::Error::Syntax("out of memory".to_owned());
    let reply = publish_encoded(&mut state, "default:room", Err(EncodeError::Payload(fault)));
    assert!(matches!(reply, ApiReply::PublishFailed));
    assert_eq!(reply.status(), 500);
    assert_eq!(reply.error(), Some("encode failed"));
    let reply = deliver_encoded(&mut state, "default", "bob", Err(EncodeError::TextTooLong));
    assert!(matches!(reply, ApiReply::DeliveryFailed));
    assert_eq!(reply.status(), 500);
    assert_eq!(reply.error(), Some("encode failed"));
    assert_eq!(state.metrics.dropped_messages, 0);
}

#[test]
fn refused_callers_need_no_channel() {
    let mut state = AppState::new(Config {
        jwt_secret: Some("s3cret".to_owned()),
        topic_channel_capacity: 0,
        ..base_config()
    });
    let body = PublishBody { topic: None, request_id: None, payload: Value::Null };
    let reply = api_publish(&mut state, None, &body);
    assert_eq!(reply.status(), 401);
    assert_eq!(reply.error(), Some("missing Authorization header\n"));
}
