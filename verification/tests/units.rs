use rust_ws_server::admission::{forwarded_address, real_address, resolve_client_ip};
use rust_ws_server::bucket::{tokens_to_add, RateLimiter, TokenBucket};
use rust_ws_server::channel::{OutboundMessage, WsFrame};
use rust_ws_server::ip_limiter::ClientIp;
use rust_ws_server::metrics::Metrics;
use rust_ws_server::session::{IdleClock, Step, TaskFault};
use rust_ws_server::tasks::{
    task_result, writer_done, writer_step, ConnectionTask, Stopping, TaskOutcome, WriterEvent,
    Written,
};
use rust_ws_server::text::{
    find_char, push_decimal, same_text, strip_prefix, take_chars, trim, trim_start_matches,
};
use rust_ws_server::topic::{default_topic, extract_topic, normalize_topic};

const SECOND: u64 = 1_000_000_000;

#[test]
fn topics_are_normalized() {
    assert_eq!(default_topic(), "public");
    assert_eq!(normalize_topic("room"), "room");
    assert_eq!(normalize_topic("  room\t\n"), "room");
    assert_eq!(normalize_topic("//room/a/"), "room/a/");
    assert_eq!(normalize_topic(""), "public");
    assert_eq!(normalize_topic("   "), "public");
    assert_eq!(normalize_topic(" /// "), "public");
    assert_eq!(normalize_topic("/ room"), " room");
    assert_eq!(normalize_topic("t1:room"), "t1:room");
}

#[test]
fn topic_names_are_cut_by_characters() {
    let long = "é".repeat(200);
    assert_eq!(normalize_topic(&long), "é".repeat(128));
    let exact = "x".repeat(128);
    assert_eq!(normalize_topic(&exact), exact);
}

/// Whether a topic's name loses a character in front of it.
fn is_trimmed(c: char) -> bool {
    normalize_topic(&format!("{c}x{c}")) == "x"
}

#[test]
fn white_space_is_what_unicode_says() {
    for n in 0..0x11_0000u32 {
        if let Some(c) = char::from_u32(n) {
            let listed = matches!(
                n,
                0x09..=0x0d
                    | 0x20
                    | 0x85
                    | 0xa0
                    | 0x1680
                    | 0x2000..=0x200a
                    | 0x2028
                    | 0x2029
                    | 0x202f
                    | 0x205f
                    | 0x3000
            );
            assert_eq!(c.is_whitespace(), listed, "{n:x}");
            if n < 0x4000 {
                assert_eq!(is_trimmed(c), listed, "{n:x}");
            }
        }
    }
}

#[test]
fn topics_are_extracted_from_keys() {
    assert_eq!(extract_topic("t1:room"), "room");
    assert_eq!(extract_topic("t1:room:a"), "room:a");
    assert_eq!(extract_topic("room"), "room");
    assert_eq!(extract_topic(":room"), "room");
    assert_eq!(extract_topic("t1:"), "");
}

#[test]
fn texts_are_searched_and_cut() {
    assert_eq!(find_char("aéb", 'b'), Some(2));
    assert_eq!(find_char("aéb", 'c'), None);
    assert_eq!(trim_start_matches("//a/", '/'), "a/");
    assert_eq!(take_chars("éàü", 2), "éà");
    assert_eq!(take_chars("éà", 2), "éà");
    assert!(same_text("é", "é"));
    assert!(!same_text("e", "é"));
    assert_eq!(strip_prefix("Bearer x", "Bearer "), Some("x"));
    assert_eq!(strip_prefix("bearer x", "Bearer "), None);
    assert_eq!(strip_prefix("Bear", "Bearer "), None);
}

#[test]
fn numbers_are_written_in_decimal() {
    for n in [0u64, 7, 10, 99, 100, 12345, u64::MAX] {
        let mut out = String::from("n=");
        push_decimal(&mut out, n);
        assert_eq!(out, format!("n={n}"));
    }
}

#[test]
fn buckets_refill_exactly() {
    assert_eq!(tokens_to_add(SECOND, 3), 3_000_000_000);
    assert_eq!(tokens_to_add(1, 1), 1);
    let mut bucket = TokenBucket::new(2, 1, 0);
    assert!(bucket.try_consume(0));
    assert!(!bucket.try_consume(SECOND / 2 - 1));
    assert!(bucket.try_consume(SECOND / 2));
    assert!(!bucket.try_consume(SECOND / 2));
}

#[test]
fn buckets_hold_no_more_than_their_burst() {
    let mut limiter = RateLimiter::new(1000, 3, 0);
    let later = 3600 * SECOND;
    for _ in 0..3 {
        assert!(limiter.allow(later));
    }
    assert!(!limiter.allow(later));
}

#[test]
fn rates_and_bursts_of_zero_count_as_one() {
    let mut limiter = RateLimiter::new(0, 0, 0);
    assert!(limiter.allow(0));
    assert!(!limiter.allow(SECOND - 1));
    assert!(limiter.allow(SECOND));
}

#[test]
fn time_that_runs_backwards_adds_nothing() {
    let mut bucket = TokenBucket::new(1, 1, 5 * SECOND);
    assert!(bucket.try_consume(5 * SECOND));
    assert!(!bucket.try_consume(0));
    assert!(bucket.try_consume(SECOND));
}

#[test]
fn a_rate_is_kept_over_time() {
    let mut limiter = RateLimiter::new(10, 5, 0);
    let mut passed = 0;
    // Twenty requests a second for ten seconds.
    for n in 0..200u64 {
        if limiter.allow(n * SECOND / 20) {
            passed += 1;
        }
    }
    assert!(passed <= 5 + 10 * 10);
    assert!(passed >= 10 * 10);
}

#[test]
fn refused_requests_cost_nothing() {
    let mut patient = TokenBucket::new(1, 1, 0);
    let mut eager = TokenBucket::new(1, 1, 0);
    assert!(patient.try_consume(0));
    assert!(eager.try_consume(0));
    for n in 1..10 {
        assert!(!eager.try_consume(n * SECOND / 10));
    }
    assert!(eager.try_consume(SECOND));
    assert!(patient.try_consume(SECOND));
}

#[test]
fn counters_count() {
    let mut metrics = Metrics::default();
    metrics.connection_accepted();
    metrics.connection_accepted();
    metrics.connection_closed();
    metrics.connection_rejected();
    metrics.message_in();
    metrics.message_out();
    metrics.message_dropped();
    metrics.protocol_error();
    metrics.ip_rejected();
    metrics.auth_rejected();
    metrics.tenant_rejected();
    metrics.tenant_rate_rejected();
    assert_eq!(metrics.active_connections, 1);
    assert_eq!(metrics.accepted_connections, 2);
    assert_eq!(metrics.rejected_connections, 1);
    assert_eq!(metrics.messages_in, 1);
    assert_eq!(metrics.messages_out, 1);
    assert_eq!(metrics.dropped_messages, 1);
    assert_eq!(metrics.protocol_errors, 1);
    assert_eq!(metrics.ip_rejections, 1);
    assert_eq!(metrics.auth_rejections, 1);
    assert_eq!(metrics.tenant_rejections, 1);
    assert_eq!(metrics.tenant_rate_rejections, 1);
}

#[test]
fn counters_wrap() {
    let mut metrics = Metrics::default();
    metrics.connection_closed();
    assert_eq!(metrics.active_connections, u64::MAX);
    metrics.connection_accepted();
    assert_eq!(metrics.active_connections, 0);
}

#[test]
fn client_addresses_are_resolved() {
    let peer = ClientIp::from_v4(1);
    let forwarded = Some(ClientIp::from_v4(2));
    let real = Some(ClientIp::from_v6(3));
    assert_eq!(resolve_client_ip(peer, forwarded, real, false), peer);
    assert_eq!(resolve_client_ip(peer, forwarded, real, true), ClientIp::from_v4(2));
    assert_eq!(resolve_client_ip(peer, None, real, true), ClientIp::from_v6(3));
    assert_eq!(resolve_client_ip(peer, None, None, true), peer);
}

#[test]
fn headers_name_addresses() {
    assert_eq!(forwarded_address(" 10.0.0.1 , 10.0.0.2"), "10.0.0.1");
    assert_eq!(forwarded_address("10.0.0.1"), "10.0.0.1");
    assert_eq!(forwarded_address(",10.0.0.2"), "");
    assert_eq!(real_address(" ::1\t"), "::1");
}

#[test]
fn writers_write_frames() {
    match writer_step(WriterEvent::Heartbeat) {
        Some((WsFrame::Ping(payload), Written::Ping)) => assert!(payload.is_empty()),
        other => panic!("unexpected: {other:?}"),
    }
    match writer_step(WriterEvent::Message(OutboundMessage::Pong(vec![9]))) {
        Some((WsFrame::Pong(payload), Written::Message)) => assert_eq!(payload, vec![9]),
        other => panic!("unexpected: {other:?}"),
    }
    assert!(writer_step(WriterEvent::Closed).is_none());
}

#[test]
fn writers_count_messages_only() {
    let mut metrics = Metrics::default();
    assert_eq!(writer_done(&mut metrics, Written::Ping, true), Step::Continue);
    assert_eq!(metrics.messages_out, 0);
    assert_eq!(writer_done(&mut metrics, Written::Message, true), Step::Continue);
    assert_eq!(metrics.messages_out, 1);
    let failed = writer_done(&mut metrics, Written::Ping, false);
    assert_eq!(failed, Step::Fail(TaskFault::Ping));
    let failed = writer_done(&mut metrics, Written::Message, false);
    assert_eq!(failed, Step::Fail(TaskFault::Message));
    assert_eq!(metrics.messages_out, 1);
    assert_eq!(TaskFault::Ping.message(), "failed to send websocket ping");
    assert_eq!(TaskFault::Message.message(), "failed to send websocket message");
    assert_eq!(TaskFault::Queue.message(), "client send queue is full or closed");
}

#[test]
fn the_other_tasks_are_stopped() {
    let (reader, writer, fanout) =
        (ConnectionTask::Reader, ConnectionTask::Writer, ConnectionTask::Fanout);
    assert_eq!(reader.others(), [(fanout, Stopping::Abort), (writer, Stopping::Drain)]);
    assert_eq!(writer.others(), [(reader, Stopping::Abort), (fanout, Stopping::Abort)]);
    assert_eq!(fanout.others(), [(reader, Stopping::Abort), (writer, Stopping::Abort)]);
    assert_eq!(reader.name(), "reader");
    assert_eq!(writer.name(), "writer");
    assert_eq!(fanout.name(), "fanout");
}

#[test]
fn tasks_end_in_results() {
    assert_eq!(task_result("reader", TaskOutcome::Finished(Ok(()))), Ok(()));
    let fault = Err("broken".to_owned());
    assert_eq!(task_result("reader", TaskOutcome::Finished(fault.clone())), fault);
    assert_eq!(task_result("writer", TaskOutcome::Cancelled), Ok(()));
    assert_eq!(
        task_result("fanout", TaskOutcome::Failed("panic".to_owned())),
        Err("fanout task failed: panic".to_owned())
    );
}

#[test]
fn counters_are_rendered() {
    let metrics = Metrics {
        active_connections: 1,
        accepted_connections: 20,
        rejected_connections: 300,
        messages_in: 4000,
        messages_out: 50000,
        dropped_messages: 0,
        protocol_errors: u64::MAX,
        ip_rejections: 6,
        auth_rejections: 7,
        tenant_rejections: 8,
        tenant_rate_rejections: 9,
    };
    let expected = "# HELP ws_active_connections Active websocket connections.\n\
        # TYPE ws_active_connections gauge\n\
        ws_active_connections 1\n\
        # HELP ws_accepted_connections_total Accepted websocket connections.\n\
        # TYPE ws_accepted_connections_total counter\n\
        ws_accepted_connections_total 20\n\
        # HELP ws_rejected_connections_total Rejected websocket connections.\n\
        # TYPE ws_rejected_connections_total counter\n\
        ws_rejected_connections_total 300\n\
        # HELP ws_messages_in_total Inbound websocket messages.\n\
        # TYPE ws_messages_in_total counter\n\
        ws_messages_in_total 4000\n\
        # HELP ws_messages_out_total Outbound websocket messages.\n\
        # TYPE ws_messages_out_total counter\n\
        ws_messages_out_total 50000\n\
        # HELP ws_dropped_messages_total Dropped websocket messages.\n\
        # TYPE ws_dropped_messages_total counter\n\
        ws_dropped_messages_total 0\n\
        # HELP ws_protocol_errors_total Invalid websocket protocol messages.\n\
        # TYPE ws_protocol_errors_total counter\n\
        ws_protocol_errors_total 18446744073709551615\n\
        # HELP ws_ip_rejections_total IP-rejected websocket connections.\n\
        # TYPE ws_ip_rejections_total counter\n\
        ws_ip_rejections_total 6\n\
        # HELP ws_auth_rejections_total Auth-rejected websocket connections.\n\
        # TYPE ws_auth_rejections_total counter\n\
        ws_auth_rejections_total 7\n\
        # HELP ws_tenant_rejections_total Tenant-rejected websocket connections.\n\
        # TYPE ws_tenant_rejections_total counter\n\
        ws_tenant_rejections_total 8\n\
        # HELP ws_tenant_rate_rejections_total Tenant-rate-rejected websocket messages.\n\
        # TYPE ws_tenant_rate_rejections_total counter\n\
        ws_tenant_rate_rejections_total 9\n";
    assert_eq!(metrics.render_prometheus(), expected);
}

#[test]
fn counters_start_at_zero() {
    let text = Metrics::default().render_prometheus();
    let samples: Vec<&str> = text.lines().filter(|line| !line.starts_with('#')).collect();
    assert_eq!(samples.len(), 11);
    assert!(samples.iter().all(|sample| sample.ends_with(" 0")));
}

#[test]
fn counters_show_how_often_things_happened() {
    let mut metrics = Metrics::default();
    for _ in 0..3 {
        metrics.connection_accepted();
    }
    metrics.connection_closed();
    metrics.connection_rejected();
    metrics.ip_rejected();
    metrics.tenant_rate_rejected();
    metrics.tenant_rate_rejected();
    let text = metrics.render_prometheus();
    assert!(text.contains("\nws_active_connections 2\n"));
    assert!(text.contains("\nws_accepted_connections_total 3\n"));
    assert!(text.contains("\nws_rejected_connections_total 1\n"));
    assert!(text.contains("\nws_ip_rejections_total 1\n"));
    assert!(text.contains("\nws_auth_rejections_total 0\n"));
    assert!(text.ends_with("\nws_tenant_rate_rejections_total 2\n"));
}

#[test]
fn silence_is_timed_from_the_last_sign_of_life() {
    let mut clock = IdleClock::new(10, 100);
    assert_eq!(clock.remaining(100), Some(10));
    assert_eq!(clock.remaining(109), Some(1));
    assert_eq!(clock.remaining(110), None);
    clock.note(109);
    assert_eq!(clock.remaining(110), Some(9));
    assert_eq!(clock.remaining(119), None);
    assert_eq!(clock.remaining(90), Some(10));
}

#[test]
fn white_space_is_trimmed() {
    assert_eq!(trim(""), "");
    assert_eq!(trim(" \t\r\n"), "");
    assert_eq!(trim("\u{3000} a b\u{a0}\u{85}"), "a b");
    assert_eq!(trim("\u{200b}x\u{200b}"), "\u{200b}x\u{200b}");
    for u in 0..0x3100u32 {
        if let Some(c) = char::from_u32(u) {
            let text = format!("{c}x{c}");
            assert_eq!(trim(&text), text.trim());
        }
    }
}
