use jsonwebtoken::{encode, Algorithm, EncodingKey, Header};
use rust_ws_server::auth::{
    claims_from_text, identity_from_claims, judge, AuthError, AuthVerifier, JwtFault,
};
use rust_ws_server::config::Config;
use serde_json::value::RawValue;
use serde_json::Value;
use std::time::{Duration, SystemTime, UNIX_EPOCH};

fn now_plus(secs: i64) -> i64 {
    SystemTime::now().duration_since(UNIX_EPOCH).unwrap().as_secs() as i64 + secs
}

fn text_or_null(text: Option<&str>) -> Value {
    match text {
        Some(text) => Value::from(text),
        None => Value::Null,
    }
}

fn claims(sub: &str, tenant_id: Option<&str>, exp: i64, iss: Option<&str>) -> Value {
    let mut claims = serde_json::Map::new();
    claims.insert("sub".to_owned(), Value::from(sub));
    claims.insert("tenant_id".to_owned(), text_or_null(tenant_id));
    claims.insert("exp".to_owned(), Value::from(exp));
    claims.insert("iss".to_owned(), text_or_null(iss));
    Value::Object(claims)
}

fn sign(claims: &Value, secret: &str) -> String {
    encode(
        &Header::new(Algorithm::HS256),
        claims,
        &EncodingKey::from_secret(secret.as_bytes()),
    )
    .unwrap()
}

fn test_config() -> Config {
    Config {
        bind_addr: "0.0.0.0:8080".to_owned(),
        max_connections: 1,
        client_queue_capacity: 1,
        topic_channel_capacity: 1,
        max_text_bytes: 1,
        max_messages_per_second: 1,
        message_burst: 1,
        idle_timeout: Duration::from_secs(1),
        heartbeat_interval: Duration::from_secs(1),
        json_logs: false,
        jwt_secret: None,
        jwt_public_key: None,
        jwt_issuer: None,
        ip_max_concurrent: None,
        ip_connection_rate: None,
        ip_rate_burst: None,
        trust_proxy_headers: false,
        tenant_max_connections: None,
        tenant_max_messages_per_second: None,
        tenant_message_burst: None,
    }
}

fn secret_verifier(secret: &str) -> AuthVerifier {
    let config = Config {
        jwt_secret: Some(secret.to_owned()),
        jwt_public_key: None,
        jwt_issuer: None,
        ..test_config()
    };
    AuthVerifier::from_config(&config).unwrap()
}

fn issuer_verifier(secret: &str, issuer: &str) -> AuthVerifier {
    let config = Config {
        jwt_secret: Some(secret.into()),
        jwt_issuer: Some(issuer.into()),
        ..test_config()
    };
    AuthVerifier::from_config(&config).unwrap()
}

#[test]
fn accepts_valid_token() {
    let v = secret_verifier("s3cret");
    let token = sign(&claims("alice", Some("t1"), now_plus(3600), None), "s3cret");
    let id = v.verify(&token).unwrap();
    assert_eq!(id.client_id, "alice");
    assert_eq!(id.tenant_id, "t1");
}

#[test]
fn defaults_tenant_when_missing() {
    let v = secret_verifier("s3cret");
    let token = sign(&claims("bob", None, now_plus(3600), None), "s3cret");
    let id = v.verify(&token).unwrap();
    assert_eq!(id.tenant_id, "default");
}

#[test]
fn rejects_expired_token() {
    let v = secret_verifier("s3cret");
    let token = sign(&claims("alice", None, now_plus(-3600), None), "s3cret");
    assert!(matches!(v.verify(&token), Err(AuthError::Expired)));
}

#[test]
fn rejects_tampered_token() {
    let v = secret_verifier("s3cret");
    let mut token = sign(&claims("alice", None, now_plus(3600), None), "s3cret");
    // Flip the last character of the signature segment.
    let last = token.len() - 1;
    let c = token.as_bytes()[last];
    token.replace_range(last.., if c == b'a' { "b" } else { "a" });
    assert!(matches!(v.verify(&token), Err(AuthError::Invalid)));
}

#[test]
fn rejects_wrong_secret() {
    let v = secret_verifier("s3cret");
    let token = sign(&claims("alice", None, now_plus(3600), None), "other-secret");
    assert!(matches!(v.verify(&token), Err(AuthError::Invalid)));
}

#[test]
fn rejects_issuer_mismatch() {
    let v = issuer_verifier("s3cret", "expected-iss");
    let token = sign(&claims("alice", None, now_plus(3600), Some("wrong-iss")), "s3cret");
    assert!(matches!(v.verify(&token), Err(AuthError::IssuerMismatch)));
}

#[test]
fn disabled_when_no_secret_configured() {
    let config = Config { jwt_secret: None, jwt_public_key: None, ..test_config() };
    assert!(AuthVerifier::from_config(&config).is_none());
}

#[test]
fn right_issuer_is_accepted() {
    let v = issuer_verifier("s3cret", "expected-iss");
    let token = sign(&claims("alice", None, now_plus(3600), Some("expected-iss")), "s3cret");
    assert_eq!(v.verify(&token).unwrap().client_id, "alice");
}

#[test]
fn missing_issuer_is_accepted() {
    let v = issuer_verifier("s3cret", "expected-iss");
    let mut members = serde_json::Map::new();
    members.insert("sub".to_owned(), Value::from("alice"));
    members.insert("exp".to_owned(), Value::from(now_plus(3600)));
    let token = sign(&Value::Object(members), "s3cret");
    assert_eq!(v.verify(&token).unwrap().client_id, "alice");
}

#[test]
fn tokens_have_no_leeway() {
    let v = secret_verifier("s3cret");
    let just_over = sign(&claims("alice", None, now_plus(-2), None), "s3cret");
    assert!(matches!(v.verify(&just_over), Err(AuthError::Expired)));
    let half_a_minute_over = sign(&claims("alice", None, now_plus(-30), None), "s3cret");
    assert!(matches!(v.verify(&half_a_minute_over), Err(AuthError::Expired)));
    let current = sign(&claims("alice", None, now_plus(30), None), "s3cret");
    assert_eq!(v.verify(&current).unwrap().client_id, "alice");
}

#[test]
fn expiry_comes_before_the_issuer() {
    let v = issuer_verifier("s3cret", "expected-iss");
    let token = sign(&claims("alice", None, now_plus(-30), Some("wrong-iss")), "s3cret");
    assert!(matches!(v.verify(&token), Err(AuthError::Expired)));
}

fn sign_text(claims: &str, secret: &str) -> String {
    encode(
        &Header::new(Algorithm::HS256),
        &RawValue::from_string(claims.to_owned()).unwrap(),
        &EncodingKey::from_secret(secret.as_bytes()),
    )
    .unwrap()
}

#[test]
fn claims_that_come_twice_are_invalid() {
    let v = secret_verifier("s3cret");
    let exp = now_plus(3600);
    let once = format!(r#"{{"sub":"alice","tenant_id":"t1","exp":{exp}}}"#);
    assert_eq!(v.verify(&sign_text(&once, "s3cret")).unwrap().tenant_id, "t1");
    let twice = format!(r#"{{"sub":"alice","tenant_id":"t1","tenant_id":"t2","exp":{exp}}}"#);
    assert!(matches!(v.verify(&sign_text(&twice, "s3cret")), Err(AuthError::Invalid)));
    let other = format!(r#"{{"sub":"alice","role":1,"role":2,"exp":{exp}}}"#);
    assert_eq!(v.verify(&sign_text(&other, "s3cret")).unwrap().client_id, "alice");
}

#[test]
fn other_claims_do_not_matter() {
    let v = secret_verifier("s3cret");
    let exp = now_plus(3600);
    let deep = format!("{}{}", "[".repeat(1000), "]".repeat(1000));
    for other in ["1e999", r#""\ud800""#, deep.as_str()] {
        let text = format!(r#"{{"sub":"alice","role":{other},"exp":{exp}}}"#);
        assert_eq!(v.verify(&sign_text(&text, "s3cret")).unwrap().client_id, "alice");
    }
}

#[test]
fn claims_are_read_from_text() {
    let read = claims_from_text(r#"{"sub":"alice","tenant_id":"t1","exp":17,"iss":"me"}"#).unwrap();
    assert_eq!(read.sub, "alice");
    assert_eq!(read.tenant_id.as_deref(), Some("t1"));
    assert_eq!(read.exp, 17);
    assert_eq!(read.iss.as_deref(), Some("me"));
    let identity = identity_from_claims(read);
    assert_eq!(identity.client_id, "alice");
    assert_eq!(identity.tenant_id, "t1");
    let read = claims_from_text(r#"{"s\u0075b":"\u0061","exp":-1,"iss":null}"#).unwrap();
    assert_eq!(read.sub, "a");
    assert_eq!(read.tenant_id, None);
    assert_eq!(read.exp, -1);
    assert_eq!(read.iss, None);
    assert!(claims_from_text(r#"{"sub":"a","exp":1,"tenant_id":3}"#).is_none());
    assert!(claims_from_text(r#"{"sub":"a","exp":1.5}"#).is_none());
    assert!(claims_from_text(r#"{"sub":7,"exp":1}"#).is_none());
    assert!(claims_from_text("null").is_none());
    let marked = r#"{"$serde_json::private::RawValue":"x","sub":"a","exp":1}"#;
    assert_eq!(claims_from_text(marked).unwrap().sub, "a");
    let marked = r#"{"sub":"a","exp":1,"tenant_id":{"$serde_json::private::RawValue":"null"}}"#;
    assert!(claims_from_text(marked).is_none());
    assert!(claims_from_text(r#"{"sub":"a","s\u0075b":"b","exp":17}"#).is_none());
    assert!(claims_from_text(r#"{"sub":"a","sub":"b","exp":17}"#).is_none());
    assert!(claims_from_text(r#"{"sub":"a","exp":17,"exp":18}"#).is_none());
    assert!(claims_from_text(r#"{"sub":"a","exp":17,"iss":"x","iss":"x"}"#).is_none());
    assert!(claims_from_text(r#"{"sub":"a"}"#).is_none());
    assert!(claims_from_text("no claims").is_none());
}

#[test]
fn expired_token_of_the_wrong_shape_is_invalid() {
    let v = secret_verifier("s3cret");
    let mut members = serde_json::Map::new();
    members.insert("sub".to_owned(), Value::from(7));
    members.insert("exp".to_owned(), Value::from(now_plus(-3600)));
    let token = sign(&Value::Object(members), "s3cret");
    assert!(matches!(v.verify(&token), Err(AuthError::Invalid)));
}

#[test]
fn tokens_for_an_audience_are_invalid() {
    let v = secret_verifier("s3cret");
    let mut token = claims("alice", None, now_plus(3600), None);
    token.as_object_mut().unwrap().insert("aud".to_owned(), Value::from("somebody"));
    assert!(matches!(v.verify(&sign(&token, "s3cret")), Err(AuthError::Invalid)));
}

#[test]
fn tokens_without_expiry_are_invalid() {
    let v = secret_verifier("s3cret");
    let mut members = serde_json::Map::new();
    members.insert("sub".to_owned(), Value::from("alice"));
    assert!(matches!(v.verify(&sign(&Value::Object(members), "s3cret")), Err(AuthError::Invalid)));
}

#[test]
fn text_that_is_no_token_is_invalid() {
    let v = secret_verifier("s3cret");
    assert!(matches!(v.verify(""), Err(AuthError::Invalid)));
    assert!(matches!(v.verify("a.b.c"), Err(AuthError::Invalid)));
}

/// The public key of the first test vector in RFC 8032.
const ED25519_PEM: &str = "-----BEGIN PUBLIC KEY-----\n\
    MCowBQYDK2VwAyEA11qYAYKxCrfVS/7TyWQHOg7hcvPapiMlrwIaaPcHURo=\n\
    -----END PUBLIC KEY-----\n";

/// The seed that it comes from.
const ED25519_SEED: [u8; 32] = [
    0x9d, 0x61, 0xb1, 0x9d, 0xef, 0xfd, 0x5a, 0x60, 0xba, 0x84, 0x4a, 0xf4, 0x92, 0xec, 0x2c, 0xc4,
    0x44, 0x49, 0xc5, 0x69, 0x7b, 0x32, 0x69, 0x19, 0x70, 0x3b, 0xac, 0x03, 0x1c, 0xae, 0x7f, 0x60,
];

const RSA_PEM: &str = "-----BEGIN PUBLIC KEY-----\n\
    MIIBIjANBgkqhkiG9w0BAQEFAAOCAQ8AMIIBCgKCAQEAsiPwpBqUtxO/r1Ni5Uvh\n\
    mAXyBdXR1Ka11b9fHiQzLxzq6S7A3K4I2L2IPMgoaUuTnBxbQIT0QWbhjQ3LdQAv\n\
    6gzZHNhlYVrbS8Hz7LcR5DJNz313KNN3lBhxy8LcNxJ/k7H19sm3wSKZCwnLaB/r\n\
    SNJqD2QExQUD6B0DmevxTn5Qtm7ZBRWnaANGqtLrMDuO3pb6BKsMq6QLj/rLTbfl\n\
    wXxjVAeapQ80o4gI0zs20rE/jsYpCAob79/7wWD/kuDTn4hd8EuOekrxX80RYiJT\n\
    tkeffDgpr0TSa+kyWdfjH4dP4CPQZiPIb3NUT45jBepWy5FGJdK0D2ZB/WsX9j8A\n\
    oQIDAQAB\n\
    -----END PUBLIC KEY-----\n";

fn key_verifier(pem: &str) -> AuthVerifier {
    let config = Config { jwt_public_key: Some(pem.to_owned()), ..test_config() };
    AuthVerifier::from_config(&config).unwrap()
}

#[test]
fn algorithm_follows_the_key() {
    assert_eq!(secret_verifier("s3cret").algorithm_name(), "HS256");
    assert_eq!(key_verifier(ED25519_PEM).algorithm_name(), "EdDSA");
    assert_eq!(key_verifier(RSA_PEM).algorithm_name(), "RS256");
}

#[test]
fn tokens_signed_with_ed25519_are_accepted() {
    let mut der = vec![
        0x30, 0x2e, 0x02, 0x01, 0x00, 0x30, 0x05, 0x06, 0x03, 0x2b, 0x65, 0x70, 0x04, 0x22, 0x04,
        0x20,
    ];
    der.extend_from_slice(&ED25519_SEED);
    let key = EncodingKey::from_ed_der(&der);
    let header = Header::new(Algorithm::EdDSA);
    let v = key_verifier(ED25519_PEM);
    let token = encode(&header, &claims("alice", Some("t1"), now_plus(3600), None), &key).unwrap();
    let identity = v.verify(&token).unwrap();
    assert_eq!(identity.client_id, "alice");
    assert_eq!(identity.tenant_id, "t1");
    let expired = encode(&header, &claims("alice", None, now_plus(-30), None), &key).unwrap();
    assert!(matches!(v.verify(&expired), Err(AuthError::Expired)));
    assert!(matches!(key_verifier(RSA_PEM).verify(&token), Err(AuthError::Invalid)));
    let shared = sign(&claims("alice", None, now_plus(3600), None), "s3cret");
    assert!(matches!(v.verify(&shared), Err(AuthError::Invalid)));
}

#[test]
fn key_that_cannot_be_read_refuses_every_token() {
    let v = key_verifier("no key");
    let token = sign(&claims("alice", None, now_plus(3600), None), "s3cret");
    assert!(matches!(v.verify(&token), Err(AuthError::Invalid)));
    assert!(matches!(v.verify(""), Err(AuthError::Invalid)));
}

#[test]
fn secret_comes_before_public_key() {
    let config = Config {
        jwt_secret: Some("s3cret".to_owned()),
        jwt_public_key: Some("no key".to_owned()),
        ..test_config()
    };
    assert_eq!(AuthVerifier::from_config(&config).unwrap().algorithm_name(), "HS256");
}

#[test]
fn verdicts_follow_the_decoding() {
    let whole = || Ok(r#"{"sub":"alice","tenant_id":"t1","exp":17}"#.to_owned());
    let lacking = || Ok("null".to_owned());
    let judged = judge(whole(), Err(JwtFault::Other)).unwrap();
    assert_eq!(judged.client_id, "alice");
    assert_eq!(judged.tenant_id, "t1");
    assert!(matches!(judge(lacking(), whole()), Err(AuthError::Invalid)));
    let expired = || Err(JwtFault::ExpiredSignature);
    assert!(matches!(judge(expired(), whole()), Err(AuthError::Expired)));
    assert!(matches!(judge(expired(), lacking()), Err(AuthError::Invalid)));
    let mismatch = judge(Err(JwtFault::InvalidIssuer), whole());
    assert!(matches!(mismatch, Err(AuthError::IssuerMismatch)));
    assert!(matches!(judge(Err(JwtFault::Other), whole()), Err(AuthError::Invalid)));
}

#[test]
fn auth_errors_read_well() {
    assert_eq!(AuthError::Invalid.message(), "invalid token");
    assert_eq!(AuthError::Expired.message(), "token expired");
    assert_eq!(AuthError::IssuerMismatch.message(), "token issuer mismatch");
}
