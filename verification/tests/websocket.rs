use jsonwebtoken::{encode, Algorithm, EncodingKey, Header};
use rust_ws_server::admission::{Passes, Refusal, WsQuery};
use rust_ws_server::bucket::RateLimiter;
use rust_ws_server::channel::WsFrame;
use rust_ws_server::config::Config;
use rust_ws_server::ip_limiter::{ClientIp, IpRejection};
use rust_ws_server::server::Session;
use rust_ws_server::session::{
    close_session, open_session, reader_step, Inbox, Incoming, Step, TaskFault,
};
use rust_ws_server::state::AppState;
use rust_ws_server::tasks::{
    fanout_step, task_result, writer_done, writer_step, ConnectionTask, FanoutEvent, Stopping,
    TaskOutcome, WriterEvent, Written,
};
use serde_json::Value;
use std::time::{Duration, SystemTime, UNIX_EPOCH};
use tokio::sync::broadcast::error::TryRecvError;

const TEST_SECRET: &str = "test-secret";

fn now_plus(secs: i64) -> i64 {
    SystemTime::now().duration_since(UNIX_EPOCH).unwrap().as_secs() as i64 + secs
}

fn token_for(sub: &str, tenant_id: Option<&str>) -> String {
    let mut claims = serde_json::Map::new();
    claims.insert("sub".to_owned(), Value::from(sub));
    claims.insert("tenant_id".to_owned(), Value::from(tenant_id.map(str::to_owned)));
    claims.insert("exp".to_owned(), Value::from(now_plus(3600)));
    claims.insert("iss".to_owned(), Value::Null);
    encode(
        &Header::new(Algorithm::HS256),
        &Value::Object(claims),
        &EncodingKey::from_secret(TEST_SECRET.as_bytes()),
    )
    .unwrap()
}

fn base_config() -> Config {
    Config {
        bind_addr: "0.0.0.0:0".to_owned(),
        max_connections: 10,
        client_queue_capacity: 16,
        topic_channel_capacity: 32,
        max_text_bytes: 64 * 1024,
        max_messages_per_second: 100,
        message_burst: 200,
        idle_timeout: Duration::from_secs(5),
        heartbeat_interval: Duration::from_secs(60),
        json_logs: false,
        jwt_secret: None,
        jwt_public_key: None,
        jwt_issuer: None,
        ip_max_concurrent: None,
        ip_connection_rate: None,
        ip_rate_burst: None,
        trust_proxy_headers: false,
        tenant_max_connections: None,
        tenant_max_messages_per_second: None,
        tenant_message_burst: None,
    }
}

fn default_server() -> AppState {
    AppState::new(base_config())
}

fn auth_server() -> AppState {
    AppState::new(Config { jwt_secret: Some(TEST_SECRET.into()), ..base_config() })
}

struct Connection {
    session: Session,
    inbox: Inbox,
    limiter: RateLimiter,
    passes: Passes,
}

fn query(topic: &str, client_id: Option<&str>, tenant_id: Option<&str>, token: Option<&str>) -> WsQuery {
    WsQuery {
        topic: topic.to_owned(),
        client_id: client_id.map(str::to_owned),
        token: token.map(str::to_owned),
        tenant_id: tenant_id.map(str::to_owned),
    }
}

fn connect(state: &mut AppState, query: WsQuery) -> Result<Connection, Refusal> {
    connect_at(state, query, 0)
}

fn connect_at(state: &mut AppState, query: WsQuery, now: u64) -> Result<Connection, Refusal> {
    let admission = state.try_connect(query, ClientIp::from_v4(0x7f00_0001), now)?;
    let (session, inbox, greeted) = open_session(state, admission.identity, &admission.topic);
    assert!(greeted.is_ok());
    let limiter = state.message_limiter(now);
    Ok(Connection { session, inbox, limiter, passes: admission.passes })
}

fn disconnect(state: &mut AppState, connection: Connection, now: u64) {
    close_session(state, &connection.session);
    state.release(connection.passes, now);
}

fn connect_as(state: &mut AppState, topic: &str, client_id: &str) -> Connection {
    connect(state, query(topic, Some(client_id), None, None)).unwrap()
}

fn connect_with(state: &mut AppState, topic: &str, token: &str) -> Connection {
    connect(state, query(topic, None, None, Some(token))).unwrap()
}

fn send_text(state: &mut AppState, connection: &mut Connection, text: &str) -> Step {
    let incoming = Incoming::Text(text.to_owned());
    reader_step(state, &connection.session, &mut connection.limiter, incoming, 0)
}

fn send(state: &mut AppState, connection: &mut Connection, incoming: Incoming) -> Step {
    reader_step(state, &connection.session, &mut connection.limiter, incoming, 0)
}

/// The next frame that the client would see, after the fan-out of its topic has run.
fn next_frame(state: &mut AppState, connection: &mut Connection) -> Option<WsFrame> {
    loop {
        let event = match connection.inbox.topic.try_recv() {
            Ok(message) => FanoutEvent::Message(message),
            Err(TryRecvError::Lagged(_)) => FanoutEvent::Lagged,
            Err(_) => break,
        };
        assert_eq!(fanout_step(state, &connection.session.queue, event), Step::Continue);
    }
    let message = connection.inbox.queue.try_recv().ok()?;
    let (frame, written) = writer_step(WriterEvent::Message(message)).unwrap();
    assert_eq!(written, Written::Message);
    assert_eq!(writer_done(&mut state.metrics, written, true), Step::Continue);
    Some(frame)
}

fn next_event(state: &mut AppState, connection: &mut Connection) -> Option<Value> {
    match next_frame(state, connection)? {
        WsFrame::Binary(bytes) => Some(rmp_serde::from_slice(&bytes).unwrap()),
        other => panic!("unexpected frame: {other:?}"),
    }
}

fn binary(json: &str) -> Incoming {
    let value: Value = serde_json::from_str(json).unwrap();
    Incoming::Binary(rmp_serde::to_vec_named(&value).unwrap())
}

#[test]
fn broadcasts_messages_to_topic_subscribers() {
    let mut state = default_server();
    let mut a = connect_as(&mut state, "test", "a");
    let mut b = connect_as(&mut state, "test", "b");
    let _ = next_event(&mut state, &mut a);
    let _ = next_event(&mut state, &mut b);

    let text = r#"{"kind":"publish","request_id":"r1","payload":{"text":"hello"}}"#;
    assert_eq!(send_text(&mut state, &mut a, text), Step::Continue);

    let received = next_event(&mut state, &mut b).unwrap();
    assert_eq!(received["kind"], "message");
    assert_eq!(received["payload"]["text"], "hello");
    assert_eq!(received["topic"], "test");
    assert_eq!(received["from"], "a");
    assert_eq!(received["request_id"], "r1");
    // The sender subscribed too.
    assert_eq!(next_event(&mut state, &mut a).unwrap(), received);
    assert_eq!(state.metrics.messages_in, 1);
    assert_eq!(state.metrics.messages_out, 4);
    assert_eq!(state.metrics.dropped_messages, 0);
}

#[test]
fn sends_direct_messages_to_one_client() {
    let mut state = default_server();
    let mut a = connect_as(&mut state, "test", "a");
    let mut b = connect_as(&mut state, "test", "b");
    let mut c = connect_as(&mut state, "test", "c");
    let _ = next_event(&mut state, &mut a);
    let _ = next_event(&mut state, &mut b);
    let _ = next_event(&mut state, &mut c);

    let text = r#"{"kind":"direct","to":"b","request_id":"d1","payload":{"text":"secret"}}"#;
    assert_eq!(send_text(&mut state, &mut a, text), Step::Continue);

    let received = next_event(&mut state, &mut b).unwrap();
    assert_eq!(received["kind"], "direct_message");
    assert_eq!(received["from"], "a");
    assert_eq!(received["to"], "b");
    assert_eq!(received["payload"]["text"], "secret");

    assert!(next_event(&mut state, &mut c).is_none());
}

/// What a writer still writes that is told to empty its queue.
fn drained(state: &mut AppState, connection: &mut Connection) -> Vec<WsFrame> {
    connection.inbox.queue.close();
    let mut frames = Vec::new();
    loop {
        let event = match connection.inbox.queue.blocking_recv() {
            Some(message) => WriterEvent::Message(message),
            None => WriterEvent::Closed,
        };
        match writer_step(event) {
            Some((frame, written)) => {
                assert_eq!(writer_done(&mut state.metrics, written, true), Step::Continue);
                frames.push(frame);
            }
            None => return frames,
        }
    }
}

#[test]
fn rate_limits_noisy_clients() {
    let mut state = AppState::new(Config {
        max_messages_per_second: 1,
        message_burst: 1,
        ..base_config()
    });
    let mut client = connect_as(&mut state, "test", "noisy");
    let mut other = connect_as(&mut state, "test", "other");
    let _ = next_event(&mut state, &mut client);
    let _ = next_event(&mut state, &mut other);

    let mut steps = Vec::new();
    for seq in 0..3 {
        let text = format!(
            r#"{{"kind":"publish","request_id":"r{seq}","payload":{{"text":"too fast"}}}}"#
        );
        let step = send_text(&mut state, &mut client, &text);
        steps.push(step);
        if step != Step::Continue {
            break;
        }
    }
    // The third message is never read.
    assert_eq!(steps, vec![Step::Continue, Step::Stop]);
    assert_eq!(state.metrics.messages_in, 2);
    assert_eq!(state.metrics.protocol_errors, 1);

    // The reader has ended: the fan-out stops, and the writer empties its queue.
    let stops = ConnectionTask::Reader.others();
    assert_eq!(stops[0], (ConnectionTask::Fanout, Stopping::Abort));
    assert_eq!(stops[1], (ConnectionTask::Writer, Stopping::Drain));
    let frames = drained(&mut state, &mut client);
    assert_eq!(frames.len(), 2);
    match &frames[0] {
        WsFrame::Binary(bytes) => {
            let value: Value = rmp_serde::from_slice(bytes).unwrap();
            assert_eq!(value["kind"], "error");
            assert_eq!(value["code"], "rate_limited");
            assert_eq!(value["message"], "message rate limit exceeded");
        }
        frame => panic!("unexpected frame: {frame:?}"),
    }
    match &frames[1] {
        WsFrame::Close { code, reason } => {
            assert_eq!(*code, 1008);
            assert_eq!(reason, "rate limit exceeded");
        }
        frame => panic!("unexpected frame: {frame:?}"),
    }
    let outcome = TaskOutcome::Finished(Ok(()));
    assert_eq!(task_result(ConnectionTask::Reader.name(), outcome), Ok(()));

    // The first message went out, the others did not.
    assert_eq!(next_event(&mut state, &mut other).unwrap()["request_id"], "r0");
    assert!(next_event(&mut state, &mut other).is_none());
}

#[test]
fn publications_are_heard_in_order_and_not_by_latecomers() {
    let mut state = default_server();
    let mut a = connect_as(&mut state, "test", "a");
    let mut b = connect_as(&mut state, "test", "b");
    let _ = next_event(&mut state, &mut b);
    for seq in 0..3 {
        let text = format!(r#"{{"kind":"publish","request_id":"r{seq}","payload":{seq}}}"#);
        assert_eq!(send_text(&mut state, &mut a, &text), Step::Continue);
    }
    let mut late = connect_as(&mut state, "test", "late");
    for seq in 0..3 {
        assert_eq!(next_event(&mut state, &mut b).unwrap()["payload"], seq);
    }
    assert!(next_event(&mut state, &mut b).is_none());
    assert_eq!(next_event(&mut state, &mut late).unwrap()["kind"], "ready");
    assert!(next_event(&mut state, &mut late).is_none());
}

#[test]
fn silent_clients_cannot_be_reached() {
    let mut state = default_server();
    let mut a = connect_as(&mut state, "test", "a");
    let mut b = connect_as(&mut state, "test", "b");
    let _ = next_event(&mut state, &mut a);
    assert_eq!(send(&mut state, &mut b, Incoming::Idle), Step::Stop);
    disconnect(&mut state, b, 0);
    let text = r#"{"kind":"direct","to":"b","payload":1}"#;
    assert_eq!(send_text(&mut state, &mut a, text), Step::Continue);
    assert_eq!(next_event(&mut state, &mut a).unwrap()["code"], "client_not_found");
}

#[test]
fn text_and_binary_come_to_the_same() {
    let mut state = default_server();
    let mut a = connect_as(&mut state, "test", "a");
    let _ = next_event(&mut state, &mut a);
    let json = r#"{"kind":"publish","topic":"test","request_id":"r","payload":[1,null,"x"]}"#;
    assert_eq!(send_text(&mut state, &mut a, json), Step::Continue);
    let from_text = next_event(&mut state, &mut a).unwrap();
    assert_eq!(send(&mut state, &mut a, binary(json)), Step::Continue);
    let from_binary = next_event(&mut state, &mut a).unwrap();
    assert_eq!(from_text, from_binary);
}

#[test]
fn rejects_connections_over_limit() {
    let mut state = AppState::new(Config { max_connections: 1, ..base_config() });
    let mut first = connect(&mut state, query("limit", None, None, None)).unwrap();
    let _ = next_event(&mut state, &mut first);

    let second = connect(&mut state, query("limit", None, None, None));
    assert!(second.is_err());
    let refusal = second.err().unwrap();
    assert_eq!(refusal, Refusal::ConnectionLimit);
    assert_eq!(refusal.status(), 503);
    assert_eq!(refusal.message(), "connection limit reached\n");
    assert_eq!(state.metrics.rejected_connections, 1);

    disconnect(&mut state, first, 0);
    assert!(connect(&mut state, query("limit", None, None, None)).is_ok());
}

#[test]
fn accepts_msgpack_client_messages() {
    let mut state = default_server();
    let mut a = connect_as(&mut state, "test", "a");
    let mut b = connect_as(&mut state, "test", "b");
    let _ = next_event(&mut state, &mut a);
    let _ = next_event(&mut state, &mut b);

    let message =
        binary(r#"{"kind":"publish","request_id":"r1","payload":{"text":"hello msgpack"}}"#);
    assert_eq!(send(&mut state, &mut a, message), Step::Continue);

    let received = next_event(&mut state, &mut b).unwrap();
    assert_eq!(received["kind"], "message");
    assert_eq!(received["payload"]["text"], "hello msgpack");
}

#[test]
fn rejects_connection_without_token_when_auth_enabled() {
    let mut state = auth_server();
    let result = connect(&mut state, query("test", Some("a"), None, None));
    assert!(result.is_err());
    let refusal = result.err().unwrap();
    assert_eq!(refusal, Refusal::MissingToken);
    assert_eq!(refusal.status(), 401);
    assert_eq!(refusal.message(), "missing token\n");
    assert_eq!(state.metrics.auth_rejections, 1);
    assert_eq!(state.connection_limit.in_use, 0);
}

#[test]
fn url_tenant_id_isolates_topics_in_dev_mode() {
    // Without tokens, the tenant comes from the query.
    let mut state = default_server();
    let mut a = connect(&mut state, query("room", Some("a"), Some("t1"), None)).unwrap();
    let mut b = connect(&mut state, query("room", Some("b"), Some("t2"), None)).unwrap();
    let _ = next_event(&mut state, &mut a);
    let _ = next_event(&mut state, &mut b);

    let text = r#"{"kind":"publish","request_id":"r1","payload":{"text":"t1 only"}}"#;
    assert_eq!(send_text(&mut state, &mut a, text), Step::Continue);

    // Same topic name, different tenant: b must not see a's message.
    assert!(next_event(&mut state, &mut b).is_none());
    assert!(next_event(&mut state, &mut a).is_some());
}

#[test]
fn jwt_ignores_url_tenant_id() {
    // With tokens, the claim's tenant wins; the one in the query is ignored.
    let mut state = auth_server();
    let token = token_for("alice", Some("t1"));
    let mut a = connect(&mut state, query("test", None, Some("t2"), Some(&token))).unwrap();
    let ready = next_event(&mut state, &mut a).unwrap();
    assert_eq!(ready["client_id"], "alice");
    assert_eq!(a.session.tenant_id, "t1");
    assert_eq!(a.session.topic_key, "t1:test");
}

#[test]
fn accepts_connection_with_valid_jwt() {
    let mut state = auth_server();
    let token = token_for("alice", None);
    let mut a = connect_with(&mut state, "test", &token);
    let ready = next_event(&mut state, &mut a).unwrap();
    // The `sub` claim overrides any client_id; ready echoes the identity of the token.
    assert_eq!(ready["kind"], "ready");
    assert_eq!(ready["client_id"], "alice");
}

#[test]
fn isolates_topics_between_tenants() {
    let mut state = auth_server();
    let token_a = token_for("alice", Some("t1"));
    let token_b = token_for("bob", Some("t2"));
    // Both connect to the same client-facing topic name "room-a".
    let mut a = connect_with(&mut state, "room-a", &token_a);
    let mut b = connect_with(&mut state, "room-a", &token_b);
    let _ = next_event(&mut state, &mut a);
    let _ = next_event(&mut state, &mut b);

    let text = r#"{"kind":"publish","request_id":"r1","payload":{"text":"only t1 sees this"}}"#;
    assert_eq!(send_text(&mut state, &mut a, text), Step::Continue);

    // Bob (t2) should NOT receive the message: different tenant.
    assert!(next_event(&mut state, &mut b).is_none());
}

#[test]
fn blocks_direct_messages_across_tenants() {
    let mut state = auth_server();
    let token_a = token_for("alice", Some("t1"));
    let token_b = token_for("bob", Some("t2"));
    let mut a = connect_with(&mut state, "test", &token_a);
    let mut b = connect_with(&mut state, "test", &token_b);
    let _ = next_event(&mut state, &mut a);
    let _ = next_event(&mut state, &mut b);

    // Alice (t1) tries to direct-message bob (t2). Cross-tenant must be blocked.
    let text = r#"{"kind":"direct","to":"bob","request_id":"d1","payload":{"text":"cross-tenant"}}"#;
    assert_eq!(send_text(&mut state, &mut a, text), Step::Continue);

    // Alice should get a client_not_found error.
    let err = next_event(&mut state, &mut a).unwrap();
    assert_eq!(err["code"], "client_not_found");
    assert_eq!(err["message"], "target client is not online");
    // Bob should not receive anything.
    assert!(next_event(&mut state, &mut b).is_none());
    assert_eq!(state.metrics.dropped_messages, 1);
}

#[test]
fn rejects_connection_over_ip_concurrent_limit() {
    let mut state = AppState::new(Config { ip_max_concurrent: Some(1), ..base_config() });
    let mut first = connect_as(&mut state, "test", "a");
    let _ = next_event(&mut state, &mut first);

    let second = connect(&mut state, query("test", Some("b"), None, None));
    assert!(second.is_err());
    let refusal = second.err().unwrap();
    assert_eq!(refusal, Refusal::Ip(IpRejection::ConcurrencyLimited));
    assert_eq!(refusal.status(), 429);
    assert_eq!(refusal.message(), "ip concurrent connection limit exceeded\n");
    assert_eq!(state.metrics.ip_rejections, 1);

    disconnect(&mut state, first, 0);
    assert!(connect(&mut state, query("test", Some("b"), None, None)).is_ok());
}

#[test]
fn rejects_connection_over_ip_rate_limit() {
    let mut state = AppState::new(Config {
        ip_connection_rate: Some(1),
        ip_rate_burst: Some(1),
        ..base_config()
    });
    // First connection consumes the single token.
    let _first = connect_as(&mut state, "test", "a");

    // Immediate second connection from the same IP must be rejected.
    let second = connect(&mut state, query("test", Some("b"), None, None));
    assert!(second.is_err());
    let refusal = second.err().unwrap();
    assert_eq!(refusal, Refusal::Ip(IpRejection::RateLimited));
    assert_eq!(refusal.status(), 429);
    assert_eq!(refusal.message(), "ip connection rate limit exceeded\n");
    assert!(connect_at(&mut state, query("test", Some("b"), None, None), 1_000_000_000).is_ok());
}

#[test]
fn rejects_connection_over_tenant_cap() {
    let mut state = AppState::new(Config {
        jwt_secret: Some(TEST_SECRET.into()),
        tenant_max_connections: Some(1),
        ..base_config()
    });
    // Tenant t1: first connection admitted.
    let token_a = token_for("alice", Some("t1"));
    let first = connect_with(&mut state, "test", &token_a);

    // Tenant t1: second connection must be rejected (cap = 1).
    let token_b = token_for("bob", Some("t1"));
    let second = connect(&mut state, query("test", None, None, Some(&token_b)));
    assert!(second.is_err());
    let refusal = second.err().unwrap();
    assert_eq!(refusal, Refusal::TenantLimit);
    assert_eq!(refusal.status(), 429);
    assert_eq!(refusal.message(), "tenant connection limit exceeded\n");
    assert_eq!(state.metrics.tenant_rejections, 1);
    assert_eq!(state.metrics.rejected_connections, 1);
    assert_eq!(state.connection_limit.in_use, 1);

    disconnect(&mut state, first, 0);
    assert_eq!(state.connection_limit.in_use, 0);
    assert!(connect(&mut state, query("test", None, None, Some(&token_b))).is_ok());
}

#[test]
fn tenant_cap_does_not_affect_other_tenants() {
    let mut state = AppState::new(Config {
        jwt_secret: Some(TEST_SECRET.into()),
        tenant_max_connections: Some(1),
        ..base_config()
    });
    // Tenant t1 fills its cap.
    let token_t1 = token_for("alice", Some("t1"));
    let _first = connect_with(&mut state, "test", &token_t1);

    // Tenant t2 must still be admitted: its cap is independent.
    let token_t2 = token_for("bob", Some("t2"));
    let mut second = connect_with(&mut state, "test", &token_t2);
    let ready = next_event(&mut state, &mut second).unwrap();
    assert_eq!(ready["client_id"], "bob");
}

#[test]
fn tenant_rate_limit_drops_messages_but_keeps_connection() {
    let mut state = AppState::new(Config {
        jwt_secret: Some(TEST_SECRET.into()),
        tenant_max_messages_per_second: Some(1),
        tenant_message_burst: Some(1),
        // Raise the per-connection rate so it doesn't fire first and close the socket.
        max_messages_per_second: 100,
        message_burst: 100,
        ..base_config()
    });
    let token = token_for("alice", Some("noisy"));
    let mut a = connect_with(&mut state, "test", &token);
    let _ = next_event(&mut state, &mut a);

    // Three messages at once. The tenant's bucket holds one, so the second and the third must be
    // rejected, but the connection must stay open.
    for seq in 0..3 {
        let text =
            format!(r#"{{"kind":"publish","request_id":"r{seq}","payload":{{"text":"x"}}}}"#);
        assert_eq!(send_text(&mut state, &mut a, &text), Step::Continue);
    }

    let mut rejections = 0;
    let mut messages = 0;
    while let Some(frame) = next_frame(&mut state, &mut a) {
        match frame {
            WsFrame::Binary(bytes) => {
                let value: Value = rmp_serde::from_slice(&bytes).unwrap();
                if value["code"] == "tenant_rate_limited" {
                    assert_eq!(value["message"], "tenant message rate exceeded");
                    rejections += 1;
                } else {
                    assert_eq!(value["request_id"], "r0");
                    messages += 1;
                }
            }
            WsFrame::Close { .. } => panic!("connection was closed by tenant rate limiter"),
            _ => continue,
        }
    }
    assert!(rejections >= 1, "expected at least one tenant_rate_limited");
    assert_eq!(rejections, 2);
    assert_eq!(messages, 1);
    assert_eq!(state.metrics.tenant_rate_rejections, 2);
    assert_eq!(state.metrics.protocol_errors, 0);
}

#[test]
fn tenant_rate_limit_does_not_affect_other_tenants() {
    let mut state = AppState::new(Config {
        jwt_secret: Some(TEST_SECRET.into()),
        tenant_max_messages_per_second: Some(1),
        tenant_message_burst: Some(1),
        max_messages_per_second: 100,
        message_burst: 100,
        ..base_config()
    });
    let token_a = token_for("alice", Some("t1"));
    let token_b = token_for("bob", Some("t2"));
    let mut a_t1 = connect_with(&mut state, "room", &token_a);
    let mut b_t2 = connect_with(&mut state, "room", &token_b);
    let _ = next_event(&mut state, &mut a_t1);
    let _ = next_event(&mut state, &mut b_t2);

    // t1 floods past its cap: messages get dropped for t1, but t1 and t2 stay connected.
    for seq in 0..3 {
        let text =
            format!(r#"{{"kind":"publish","request_id":"r{seq}","payload":{{"text":"flood"}}}}"#);
        assert_eq!(send_text(&mut state, &mut a_t1, &text), Step::Continue);
    }

    // t2 is answered all the same.
    let probe = r#"{"kind":"ping","request_id":"t2-probe","payload":null}"#;
    assert_eq!(send_text(&mut state, &mut b_t2, probe), Step::Continue);

    let mut got_pong = false;
    while let Some(value) = next_event(&mut state, &mut b_t2) {
        if value["kind"] == "pong" {
            assert_eq!(value["request_id"], "t2-probe");
            assert_eq!(value["payload"], Value::Null);
            got_pong = true;
            break;
        }
    }
    assert!(got_pong, "t2 should still respond after t1 flooded its own tenant bucket");
}

#[test]
fn greeting_names_topic_and_client() {
    let mut state = default_server();
    let mut a = connect(&mut state, query("  //room ", None, None, None)).unwrap();
    let ready = next_event(&mut state, &mut a).unwrap();
    let expected: Value =
        serde_json::from_str(r#"{"kind":"ready","topic":"room","client_id":"anonymous"}"#).unwrap();
    assert_eq!(ready, expected);
    assert_eq!(a.session.topic_key, "default:room");
    assert_eq!(a.session.connection_id, 1);
}

#[test]
fn publications_can_name_another_topic() {
    let mut state = default_server();
    let mut a = connect_as(&mut state, "test", "a");
    let mut b = connect_as(&mut state, "room-b", "b");
    let _ = next_event(&mut state, &mut a);
    let _ = next_event(&mut state, &mut b);
    let text = r#"{"kind":"publish","topic":"/room-b","payload":[1,2]}"#;
    assert_eq!(send_text(&mut state, &mut a, text), Step::Continue);
    assert!(next_event(&mut state, &mut a).is_none());
    let received = next_event(&mut state, &mut b).unwrap();
    let expected: Value = serde_json::from_str(
        r#"{"kind":"message","topic":"room-b","from":"a","request_id":null,"payload":[1,2]}"#,
    )
    .unwrap();
    assert_eq!(received, expected);
}

#[test]
fn publications_that_nobody_hears_are_dropped() {
    let mut state = default_server();
    let mut a = connect_as(&mut state, "test", "a");
    let _ = next_event(&mut state, &mut a);
    let text = r#"{"kind":"publish","topic":"empty","payload":1}"#;
    assert_eq!(send_text(&mut state, &mut a, text), Step::Continue);
    assert_eq!(state.metrics.dropped_messages, 1);
    assert!(next_event(&mut state, &mut a).is_none());
}

#[test]
fn unreadable_messages_are_answered() {
    let mut state = default_server();
    let mut a = connect_as(&mut state, "test", "a");
    let _ = next_event(&mut state, &mut a);
    assert_eq!(send_text(&mut state, &mut a, "not json"), Step::Continue);
    let err = next_event(&mut state, &mut a).unwrap();
    assert_eq!(err["kind"], "error");
    assert_eq!(err["code"], "invalid_json");
    assert_eq!(err["message"], "message must match the websocket JSON protocol");
    assert_eq!(send(&mut state, &mut a, Incoming::Binary(vec![0xc1])), Step::Continue);
    let err = next_event(&mut state, &mut a).unwrap();
    assert_eq!(err["code"], "invalid_msgpack");
    assert_eq!(
        err["message"],
        "binary message must match the websocket MessagePack protocol"
    );
    assert_eq!(state.metrics.protocol_errors, 2);
    assert_eq!(state.metrics.messages_in, 2);
}

#[test]
fn long_texts_are_refused() {
    let mut state = AppState::new(Config { max_text_bytes: 40, ..base_config() });
    let mut a = connect_as(&mut state, "test", "a");
    let _ = next_event(&mut state, &mut a);
    // Forty bytes, fewer characters.
    let fits = "{\"kind\":\"ping\",\"payload\":\"éééééé\"}";
    assert_eq!(fits.len(), 40);
    assert_eq!(send_text(&mut state, &mut a, fits), Step::Continue);
    assert_eq!(next_event(&mut state, &mut a).unwrap()["kind"], "pong");
    let too_long = format!("{fits} ");
    assert_eq!(send_text(&mut state, &mut a, &too_long), Step::Continue);
    let err = next_event(&mut state, &mut a).unwrap();
    assert_eq!(err["code"], "message_too_large");
    assert_eq!(err["message"], "text message exceeds configured limit");
    assert_eq!(state.metrics.protocol_errors, 1);
}

#[test]
fn pings_of_the_socket_are_answered() {
    let mut state = default_server();
    let mut a = connect_as(&mut state, "test", "a");
    let _ = next_event(&mut state, &mut a);
    assert_eq!(send(&mut state, &mut a, Incoming::Ping(vec![1, 2, 3])), Step::Continue);
    match next_frame(&mut state, &mut a) {
        Some(WsFrame::Pong(payload)) => assert_eq!(payload, vec![1, 2, 3]),
        other => panic!("unexpected frame: {other:?}"),
    }
    assert_eq!(send(&mut state, &mut a, Incoming::Pong), Step::Continue);
    assert!(next_frame(&mut state, &mut a).is_none());
}

#[test]
fn silent_connections_are_closed() {
    let mut state = default_server();
    let mut a = connect_as(&mut state, "test", "a");
    let _ = next_event(&mut state, &mut a);
    assert_eq!(send(&mut state, &mut a, Incoming::Idle), Step::Stop);
    match next_frame(&mut state, &mut a) {
        Some(WsFrame::Close { code, reason }) => {
            assert_eq!(code, 1000);
            assert_eq!(reason, "idle timeout");
        }
        other => panic!("unexpected frame: {other:?}"),
    }
}

#[test]
fn readers_end_with_the_stream() {
    let mut state = default_server();
    let mut a = connect_as(&mut state, "test", "a");
    assert_eq!(send(&mut state, &mut a, Incoming::Close), Step::Stop);
    assert_eq!(send(&mut state, &mut a, Incoming::Failed), Step::Fail(TaskFault::Socket));
}

#[test]
fn pings_echo_their_payload() {
    let mut state = default_server();
    let mut a = connect_as(&mut state, "test", "a");
    let mut b = connect_as(&mut state, "test", "b");
    let _ = next_event(&mut state, &mut a);
    let _ = next_event(&mut state, &mut b);
    let text = r#"{"kind":"ping","request_id":"web-3","payload":{"from":"browser"}}"#;
    assert_eq!(send_text(&mut state, &mut a, text), Step::Continue);
    let pong = next_event(&mut state, &mut a).unwrap();
    let expected: Value = serde_json::from_str(
        r#"{"kind":"pong","request_id":"web-3","payload":{"from":"browser"}}"#,
    )
    .unwrap();
    assert_eq!(pong, expected);
    assert!(next_event(&mut state, &mut b).is_none());
}

#[test]
fn ended_connections_are_forgotten() {
    let mut state = default_server();
    let mut a = connect_as(&mut state, "test", "a");
    let b = connect_as(&mut state, "test", "b");
    let _ = next_event(&mut state, &mut a);
    assert_eq!(state.metrics.active_connections, 2);
    disconnect(&mut state, b, 0);
    assert_eq!(state.metrics.active_connections, 1);
    assert_eq!(state.metrics.accepted_connections, 2);
    assert_eq!(state.connection_limit.in_use, 1);
    let text = r#"{"kind":"direct","to":"b","payload":1}"#;
    assert_eq!(send_text(&mut state, &mut a, text), Step::Continue);
    assert_eq!(next_event(&mut state, &mut a).unwrap()["code"], "client_not_found");
}

#[test]
fn clients_that_do_not_read_lose_their_connection() {
    let mut state = AppState::new(Config { client_queue_capacity: 1, ..base_config() });
    let mut slow = connect_as(&mut state, "test", "slow");
    // The greeting fills the queue.
    let text = r#"{"kind":"publish","payload":1}"#;
    assert_eq!(send_text(&mut state, &mut slow, text), Step::Continue);
    let message = slow.inbox.topic.try_recv().unwrap();
    let step = fanout_step(&mut state, &slow.session.queue, FanoutEvent::Message(message));
    assert_eq!(step, Step::Fail(TaskFault::Queue));
    assert_eq!(state.metrics.dropped_messages, 1);
}

#[test]
fn invalid_tokens_are_refused() {
    let mut state = auth_server();
    let result = connect(&mut state, query("test", None, None, Some("nonsense")));
    let refusal = result.err().unwrap();
    assert_eq!(refusal, Refusal::InvalidToken);
    assert_eq!(refusal.status(), 401);
    assert_eq!(refusal.message(), "invalid token\n");
    assert_eq!(state.metrics.auth_rejections, 1);
    assert_eq!(state.metrics.rejected_connections, 1);
    assert_eq!(state.connection_limit.in_use, 0);
}

#[test]
fn refused_connections_hand_back_their_address() {
    let mut state = AppState::new(Config {
        jwt_secret: Some(TEST_SECRET.into()),
        ip_max_concurrent: Some(1),
        ..base_config()
    });
    for _ in 0..3 {
        let refusal = connect(&mut state, query("test", None, None, None)).err().unwrap();
        assert_eq!(refusal, Refusal::MissingToken);
    }
    let token = token_for("alice", None);
    assert!(connect(&mut state, query("test", None, None, Some(&token))).is_ok());
}

#[test]
fn unreadable_keys_let_nobody_in() {
    let mut state =
        AppState::new(Config { jwt_public_key: Some("no key".to_owned()), ..base_config() });
    let without = connect(&mut state, query("test", Some("a"), None, None));
    assert_eq!(without.err().unwrap(), Refusal::MissingToken);
    let token = token_for("alice", None);
    let with = connect(&mut state, query("test", None, None, Some(&token)));
    assert_eq!(with.err().unwrap(), Refusal::InvalidToken);
    assert_eq!(state.metrics.auth_rejections, 2);
}

#[test]
fn connections_run_with_the_configured_limits() {
    let state = AppState::new(Config {
        max_messages_per_second: 2,
        message_burst: 3,
        idle_timeout: Duration::from_millis(1500),
        ..base_config()
    });
    let mut limiter = state.message_limiter(7);
    assert_eq!((0..5).filter(|_| limiter.allow(7)).count(), 3);
    assert!(limiter.allow(7 + 500_000_000));
    assert!(!limiter.allow(7 + 500_000_000));
    let clock = state.idle_clock(7);
    assert_eq!(clock.remaining(7), Some(1_500_000_000));
    assert_eq!(clock.remaining(7 + 1_499_999_999), Some(1));
    assert_eq!(clock.remaining(7 + 1_500_000_000), None);
    let patient = AppState::new(Config { idle_timeout: Duration::MAX, ..base_config() });
    assert_eq!(patient.idle_clock(0).remaining(0), Some(u64::MAX));
}
