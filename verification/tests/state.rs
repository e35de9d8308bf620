use bytes::Bytes;
use rust_ws_server::channel::{OutboundMessage, WsFrame};
use rust_ws_server::config::Config;
use rust_ws_server::state::{tenant_topic, AppState, Slots};
use std::time::Duration;
use tokio::sync::mpsc;

const SECOND: u64 = 1_000_000_000;

fn test_config() -> Config {
    Config {
        bind_addr: "0.0.0.0:0".to_owned(),
        max_connections: 10,
        client_queue_capacity: 16,
        topic_channel_capacity: 32,
        max_text_bytes: 64 * 1024,
        max_messages_per_second: 100,
        message_burst: 200,
        idle_timeout: Duration::from_secs(5),
        heartbeat_interval: Duration::from_secs(60),
        json_logs: false,
        jwt_secret: None,
        jwt_public_key: None,
        jwt_issuer: None,
        ip_max_concurrent: None,
        ip_connection_rate: None,
        ip_rate_burst: None,
        trust_proxy_headers: false,
        tenant_max_connections: None,
        tenant_max_messages_per_second: None,
        tenant_message_burst: None,
    }
}

fn binary(message: OutboundMessage) -> Vec<u8> {
    match message {
        OutboundMessage::Binary(bytes) => bytes.to_vec(),
        other => panic!("unexpected message: {other:?}"),
    }
}

#[test]
fn direct_message_is_scoped_to_tenant() {
    let mut state = AppState::new(test_config());
    let (tx_a, mut rx_a) = mpsc::channel::<OutboundMessage>(16);
    let (tx_b, mut rx_b) = mpsc::channel::<OutboundMessage>(16);
    // Same client_id "alice" registered in two different tenants: both must coexist.
    state.register_client("alice".into(), "t1".into(), 1, tx_a);
    state.register_client("alice".into(), "t2".into(), 2, tx_b);

    // Send to alice in t1 hits t1's handle; t2's queue stays empty.
    assert!(state.send_to_client("alice", "t1", Bytes::from_static(b"x")));
    assert_eq!(binary(rx_a.try_recv().unwrap()), b"x");
    assert!(rx_b.try_recv().is_err());
    // Send to alice in t2 hits t2's handle.
    assert!(state.send_to_client("alice", "t2", Bytes::from_static(b"y")));
    assert_eq!(binary(rx_b.try_recv().unwrap()), b"y");
    assert!(rx_a.try_recv().is_err());
}

#[test]
fn cross_tenant_direct_returns_false() {
    let mut state = AppState::new(test_config());
    let (tx, _rx) = mpsc::channel::<OutboundMessage>(16);
    state.register_client("bob".into(), "t1".into(), 1, tx);

    // Bob exists in t1 but we ask for t2: should be treated as not found.
    let payload = Bytes::from_static(b"y");
    assert!(!state.send_to_client("bob", "t2", payload));
}

#[test]
fn tenant_topic_prefixes_namespace() {
    assert_eq!(tenant_topic("t1", "room-a"), "t1:room-a");
    assert_eq!(tenant_topic("default", "room-a"), "default:room-a");
    assert_ne!(tenant_topic("t1", "room-a"), tenant_topic("t2", "room-a"));
}

#[test]
fn tenants_with_colons_can_meet() {
    assert_eq!(tenant_topic("a", "b:c"), tenant_topic("a:b", "c"));
    assert_ne!(tenant_topic("a:b", "c"), tenant_topic("a", "c"));
}

#[test]
fn full_and_closed_queues_take_nothing() {
    let mut state = AppState::new(test_config());
    let (tx, rx) = mpsc::channel::<OutboundMessage>(1);
    state.register_client("bob".into(), "t1".into(), 1, tx);
    assert!(state.send_to_client("bob", "t1", Bytes::from_static(b"1")));
    assert!(!state.send_to_client("bob", "t1", Bytes::from_static(b"2")));
    drop(rx);
    assert!(!state.send_to_client("bob", "t1", Bytes::from_static(b"3")));
}

#[test]
fn older_connection_does_not_end_newer_one() {
    let mut state = AppState::new(test_config());
    let (tx_old, _rx_old) = mpsc::channel::<OutboundMessage>(16);
    let (tx_new, mut rx_new) = mpsc::channel::<OutboundMessage>(16);
    state.register_client("bob".into(), "t1".into(), 1, tx_old);
    state.register_client("bob".into(), "t1".into(), 2, tx_new);
    state.unregister_client("bob", "t1", 1);
    assert!(state.send_to_client("bob", "t1", Bytes::from_static(b"z")));
    assert_eq!(binary(rx_new.try_recv().unwrap()), b"z");
    state.unregister_client("bob", "t1", 2);
    assert!(!state.send_to_client("bob", "t1", Bytes::from_static(b"z")));
}

#[test]
fn connection_ids_count_up_from_one() {
    let mut state = AppState::new(test_config());
    assert_eq!(state.next_connection_id(), 1);
    assert_eq!(state.next_connection_id(), 2);
    assert_eq!(state.next_connection_id(), 3);
}

#[test]
fn publications_reach_the_subscribers_of_their_topic() {
    let mut state = AppState::new(test_config());
    let mut one = state.subscribe("t1:room");
    let mut two = state.subscribe("t1:room");
    let mut other = state.subscribe("t2:room");
    assert_eq!(state.publish("t1:room", Bytes::from_static(b"hi")), 2);
    assert_eq!(one.try_recv().unwrap(), Bytes::from_static(b"hi"));
    assert_eq!(two.try_recv().unwrap(), Bytes::from_static(b"hi"));
    assert!(other.try_recv().is_err());
    assert_eq!(state.publish("t3:room", Bytes::from_static(b"hi")), 0);
}

#[test]
fn topic_channels_have_the_configured_capacity() {
    let config = Config { topic_channel_capacity: 2, ..test_config() };
    let mut state = AppState::new(config);
    let mut slow = state.subscribe("t1:room");
    for n in 0..3u8 {
        state.publish("t1:room", Bytes::from(vec![n]));
    }
    // The oldest message is gone.
    assert!(slow.try_recv().is_err());
    assert_eq!(slow.try_recv().unwrap(), Bytes::from(vec![1u8]));
    assert_eq!(slow.try_recv().unwrap(), Bytes::from(vec![2u8]));
}

#[test]
fn queues_have_the_configured_capacity() {
    let config = Config { client_queue_capacity: 3, ..test_config() };
    let mut state = AppState::new(config);
    let (tx, mut rx) = state.open_queue();
    assert_eq!(tx.max_capacity(), 3);
    tx.try_send(OutboundMessage::Pong(vec![1])).unwrap();
    assert!(matches!(rx.try_recv().unwrap(), OutboundMessage::Pong(p) if p == vec![1]));
}

#[test]
fn slots_are_limited_and_come_back() {
    let mut slots = Slots::new(1);
    let slot = slots.try_acquire().unwrap();
    assert!(slots.try_acquire().is_none());
    slots.release(slot);
    assert_eq!(slots.in_use, 0);
    assert!(slots.try_acquire().is_some());
    assert!(Slots::new(0).try_acquire().is_none());
}

#[test]
fn tenant_connections_are_limited_each() {
    let config = Config { tenant_max_connections: Some(1), ..test_config() };
    let mut state = AppState::new(config);
    let permit = state.acquire_tenant_permit("t1").unwrap().unwrap();
    assert_eq!(permit.tenant_id, "t1");
    assert!(state.acquire_tenant_permit("t1").unwrap().is_err());
    assert!(state.acquire_tenant_permit("t2").unwrap().is_ok());
    state.release_tenant_permit(permit);
    assert!(state.acquire_tenant_permit("t1").unwrap().is_ok());
}

#[test]
fn tenant_connections_are_unlimited_by_default() {
    let mut state = AppState::new(test_config());
    assert!(state.acquire_tenant_permit("t1").is_none());
}

#[test]
fn tenant_messages_are_limited_each() {
    let config = Config {
        tenant_max_messages_per_second: Some(2),
        tenant_message_burst: Some(1),
        ..test_config()
    };
    let mut state = AppState::new(config);
    assert!(state.check_tenant_rate("t1", 0));
    assert!(!state.check_tenant_rate("t1", 0));
    assert!(state.check_tenant_rate("t2", 0));
    assert!(!state.check_tenant_rate("t1", SECOND / 2 - 1));
    assert!(state.check_tenant_rate("t1", SECOND / 2));
}

#[test]
fn tenant_rate_is_kept_over_time() {
    let config = Config {
        tenant_max_messages_per_second: Some(10),
        tenant_message_burst: Some(5),
        ..test_config()
    };
    let mut state = AppState::new(config);
    let mut passed = 0;
    // Twenty messages a second for ten seconds.
    for n in 0..200u64 {
        if state.check_tenant_rate("t1", 7 + n * SECOND / 20) {
            passed += 1;
        }
    }
    assert!(passed <= 5 + 10 * 10);
    assert!(passed >= 10 * 10);
}

#[test]
fn tenant_burst_defaults_to_the_rate() {
    let config = Config { tenant_max_messages_per_second: Some(3), ..test_config() };
    let mut state = AppState::new(config);
    for _ in 0..3 {
        assert!(state.check_tenant_rate("t1", 0));
    }
    assert!(!state.check_tenant_rate("t1", 0));
}

#[test]
fn tenant_messages_are_unlimited_by_default() {
    let config = Config { tenant_message_burst: Some(1), ..test_config() };
    let mut state = AppState::new(config);
    for _ in 0..1000 {
        assert!(state.check_tenant_rate("t1", 0));
    }
}

#[test]
fn messages_become_frames() {
    let binary = OutboundMessage::Binary(Bytes::from_static(b"abc")).into_ws_message();
    assert!(matches!(binary, WsFrame::Binary(bytes) if bytes == b"abc"));
    let pong = OutboundMessage::Pong(vec![1, 2]).into_ws_message();
    assert!(matches!(pong, WsFrame::Pong(payload) if payload == vec![1, 2]));
    let close = OutboundMessage::Close { code: 1008, reason: "rate limit exceeded" };
    match close.into_ws_message() {
        WsFrame::Close { code, reason } => {
            assert_eq!(code, 1008);
            assert_eq!(reason, "rate limit exceeded");
        }
        other => panic!("unexpected frame: {other:?}"),
    }
}
