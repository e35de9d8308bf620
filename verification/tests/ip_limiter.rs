use rust_ws_server::config::Config;
use rust_ws_server::ip_limiter::{ClientIp, IpLimiter, IpRejection, IpState};
use rust_ws_server::bucket::TokenBucket;
use std::time::Duration;

const MILLISECOND: u64 = 1_000_000;
const SECOND: u64 = 1_000_000_000;

fn config(max_concurrent: Option<usize>, rate: Option<u32>, burst: Option<u32>) -> Config {
    Config {
        bind_addr: "0.0.0.0:8080".to_owned(),
        max_connections: 100,
        client_queue_capacity: 16,
        topic_channel_capacity: 32,
        max_text_bytes: 64 * 1024,
        max_messages_per_second: 100,
        message_burst: 200,
        idle_timeout: Duration::from_secs(5),
        heartbeat_interval: Duration::from_secs(60),
        json_logs: false,
        jwt_secret: None,
        jwt_public_key: None,
        jwt_issuer: None,
        ip_max_concurrent: max_concurrent,
        ip_connection_rate: rate,
        ip_rate_burst: burst,
        trust_proxy_headers: false,
        tenant_max_connections: None,
        tenant_max_messages_per_second: None,
        tenant_message_burst: None,
    }
}

fn localhost() -> ClientIp {
    ClientIp::from_v4(0x7f00_0001)
}

#[test]
fn enforces_concurrency_cap() {
    let mut limiter = IpLimiter::from_config(&config(Some(1), None, None)).unwrap();
    let ip = localhost();
    let _p1 = limiter.try_acquire(ip, 0).unwrap();
    match limiter.try_acquire(ip, 0) {
        Err(IpRejection::ConcurrencyLimited) => {}
        other => panic!("expected ConcurrencyLimited, got {other:?}"),
    }
}

#[test]
fn permit_release_allows_reentry() {
    let mut limiter = IpLimiter::from_config(&config(Some(1), None, None)).unwrap();
    let ip = localhost();
    let p = limiter.try_acquire(ip, 0).unwrap();
    limiter.release(p, 0);
    let _p2 = limiter.try_acquire(ip, 0).unwrap();
}

#[test]
fn enforces_rate_cap() {
    let mut limiter = IpLimiter::from_config(&config(None, Some(1), Some(1))).unwrap();
    let ip = localhost();
    let _first = limiter.try_acquire(ip, 0).unwrap();
    match limiter.try_acquire(ip, 0) {
        Err(IpRejection::RateLimited) => {}
        other => panic!("expected RateLimited, got {other:?}"),
    }
}

#[test]
fn none_when_unconfigured() {
    assert!(IpLimiter::from_config(&config(None, None, None)).is_none());
}

#[test]
fn independent_ips_are_independent() {
    let mut limiter = IpLimiter::from_config(&config(Some(1), None, None)).unwrap();
    let ip1 = ClientIp::from_v4(0x0a00_0001);
    let ip2 = ClientIp::from_v4(0x0a00_0002);
    let _p1 = limiter.try_acquire(ip1, 0).unwrap();
    let _p2 = limiter.try_acquire(ip2, 0).unwrap();
}

#[test]
fn rate_refills_over_time() {
    let mut limiter = IpLimiter::from_config(&config(None, Some(100), Some(1))).unwrap();
    let ip = localhost();
    let _first = limiter.try_acquire(ip, 0).unwrap();
    // The bucket holds one token and is empty. Wait for the refill.
    let _second = limiter.try_acquire(ip, 50 * MILLISECOND).unwrap();
}

#[test]
fn addresses_of_both_versions_are_told_apart() {
    let mut limiter = IpLimiter::from_config(&config(Some(1), None, None)).unwrap();
    let _four = limiter.try_acquire(ClientIp::from_v4(1), 0).unwrap();
    let _six = limiter.try_acquire(ClientIp::from_v6(1), 0).unwrap();
    assert!(limiter.try_acquire(ClientIp::from_v6(1), 0).is_err());
}

#[test]
fn rate_comes_before_cap() {
    let mut limiter = IpLimiter::from_config(&config(Some(1), Some(1), Some(2))).unwrap();
    let ip = localhost();
    let _first = limiter.try_acquire(ip, 0).unwrap();
    // The second request costs the last token though the cap refuses it.
    assert_eq!(limiter.try_acquire(ip, 0).unwrap_err(), IpRejection::ConcurrencyLimited);
    assert_eq!(limiter.try_acquire(ip, 0).unwrap_err(), IpRejection::RateLimited);
}

#[test]
fn burst_defaults_to_the_rate() {
    let mut limiter = IpLimiter::from_config(&config(None, Some(3), None)).unwrap();
    let ip = localhost();
    for _ in 0..3 {
        assert!(limiter.try_acquire(ip, 0).is_ok());
    }
    assert!(limiter.try_acquire(ip, 0).is_err());
}

#[test]
fn burst_alone_limits_nothing() {
    assert!(IpLimiter::from_config(&config(None, None, Some(1))).is_none());
}

#[test]
fn idle_addresses_are_forgotten() {
    let mut limiter = IpLimiter::from_config(&config(None, Some(1), Some(1000))).unwrap();
    let ip = localhost();
    for _ in 0..1000 {
        let p = limiter.try_acquire(ip, 0).unwrap();
        limiter.release(p, 0);
    }
    assert!(limiter.try_acquire(ip, 0).is_err());
    // Three hundred tokens would have accrued; once forgotten, the address has its whole burst.
    let later = 300 * SECOND + 1;
    for _ in 0..1000 {
        assert!(limiter.try_acquire(ip, later).is_ok());
    }
}

#[test]
fn connected_addresses_are_not_forgotten() {
    let mut limiter = IpLimiter::from_config(&config(Some(1), None, None)).unwrap();
    let ip = localhost();
    let _p = limiter.try_acquire(ip, 0).unwrap();
    assert!(limiter.try_acquire(ip, 10_000 * SECOND).is_err());
}

#[test]
fn more_idle_addresses_than_one_sweep_takes() {
    let mut limiter = IpLimiter::from_config(&config(Some(1), None, None)).unwrap();
    for n in 0..200 {
        let p = limiter.try_acquire(ClientIp::from_v4(n), 0).unwrap();
        limiter.release(p, 0);
    }
    for n in 0..200 {
        assert!(limiter.try_acquire(ClientIp::from_v4(n), 301 * SECOND).is_ok());
    }
}

#[test]
fn release_of_an_unknown_address_changes_nothing() {
    let mut one = IpLimiter::from_config(&config(Some(1), None, None)).unwrap();
    let mut two = IpLimiter::from_config(&config(Some(1), None, None)).unwrap();
    let p = one.try_acquire(localhost(), 0).unwrap();
    two.release(p, 0);
    assert!(two.try_acquire(localhost(), 0).is_ok());
    assert!(two.try_acquire(localhost(), 0).is_err());
}

#[test]
fn idleness_takes_more_than_five_minutes() {
    let mut state = IpState { concurrent: 0, bucket: TokenBucket::new(1, 1, 0), last_seen: 7 };
    assert!(!state.is_idle(7));
    assert!(!state.is_idle(300 * SECOND + 7));
    assert!(state.is_idle(300 * SECOND + 8));
    assert!(!state.is_idle(0));
    state.concurrent = 1;
    assert!(!state.is_idle(300 * SECOND + 8));
}

#[test]
fn large_caps_are_kept_whole() {
    let mut limiter = IpLimiter::from_config(&config(Some(4_294_967_296), None, None)).unwrap();
    let _p1 = limiter.try_acquire(localhost(), 0).unwrap();
    let mut limiter = IpLimiter::from_config(&config(Some(4_294_967_297), None, None)).unwrap();
    let _p1 = limiter.try_acquire(localhost(), 0).unwrap();
    let _p2 = limiter.try_acquire(localhost(), 0).unwrap();
}
