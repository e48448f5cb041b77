use rathole::auth::{
    claims_at, issue_claims, issue_token, login, login_at, register_event, token_accepted, Claims, LoginPayload,
    MAX_UTC_TIMESTAMP, TOKEN_LIFETIME_SECS,
};
use rathole::session::SessionEvent;
use rathole::error::AppError;

#[test]
fn login_test_login_success() {
    let payload = LoginPayload { username: "test".to_string(), password: "test".to_string() };
    let response = login(&payload, "test_secret");
    assert!(response.is_ok());
}

#[test]
fn test_login_fail() {
    let payload = LoginPayload { username: "wrong".to_string(), password: "wrong".to_string() };
    let result = login(&payload, "test_secret");
    assert!(matches!(result, Err(AppError::InvalidCredentials)));
}

#[test]
fn claims_expire_a_day_after_issue() {
    let payload = LoginPayload { username: "test".to_string(), password: "test".to_string() };
    let claims = issue_claims(&payload, 1_700_000_000).unwrap();
    assert_eq!(claims.sub, "test");
    assert_eq!(claims.exp, 1_700_000_000 + TOKEN_LIFETIME_SECS as usize);
    assert_eq!(claims.exp, 1_700_086_400);
}

#[test]
fn login_rejects_right_user_wrong_password() {
    let payload = LoginPayload { username: "test".to_string(), password: "nope".to_string() };
    assert_eq!(issue_claims(&payload, 0), Err(AppError::InvalidCredentials));
}

#[test]
fn error_responses() {
    assert_eq!(AppError::InvalidCredentials.response_parts(), (401, "Invalid credentials".to_string()));
    assert_eq!(AppError::InvalidToken.response_parts(), (401, "Invalid token".to_string()));
    assert_eq!(AppError::TunnelNotFound.response_parts(), (404, "Tunnel not found".to_string()));
    assert_eq!(AppError::TunnelSendError.response_parts(), (500, "Failed to send request to tunnel".to_string()));
    assert_eq!(
        AppError::TunnelResponseError.response_parts(),
        (500, "Failed to get response from tunnel".to_string())
    );
    assert_eq!(AppError::JsonError("bad".to_string()).response_parts(), (400, "JSON error: bad".to_string()));
    assert_eq!(AppError::JwtError("expired".to_string()).response_parts(), (401, "JWT error: expired".to_string()));
    assert_eq!(AppError::WebSocketError("x".to_string()).response_parts(), (500, "WebSocket error: x".to_string()));
    assert_eq!(AppError::HyperError("x".to_string()).response_parts(), (500, "Hyper error: x".to_string()));
    assert_eq!(AppError::ReqwestError("x".to_string()).response_parts(), (500, "Reqwest error: x".to_string()));
    assert_eq!(AppError::IoError("x".to_string()).response_parts(), (500, "IO error: x".to_string()));
    assert_eq!(AppError::Other("x".to_string()).response_parts(), (500, "Other error: x".to_string()));
}

fn hs256(sub: &str, exp: u64, secret: &str) -> String {
    let mut map = serde_json::Map::new();
    map.insert("sub".to_string(), serde_json::Value::String(sub.to_string()));
    map.insert("exp".to_string(), serde_json::Value::from(exp));
    jsonwebtoken::encode(&jsonwebtoken::Header::default(), &map, &jsonwebtoken::EncodingKey::from_secret(secret.as_bytes()))
        .unwrap()
}

fn decode_claims(token: &str, secret: &str) -> serde_json::Value {
    jsonwebtoken::decode::<serde_json::Value>(
        token,
        &jsonwebtoken::DecodingKey::from_secret(secret.as_bytes()),
        &jsonwebtoken::Validation::default(),
    )
    .unwrap()
    .claims
}

fn now_secs() -> u64 {
    std::time::SystemTime::now().duration_since(std::time::UNIX_EPOCH).unwrap().as_secs()
}

#[test]
fn login_claims_expire_in_a_day() {
    let now = now_secs();
    let payload = LoginPayload { username: "test".to_string(), password: "test".to_string() };
    let token = login(&payload, "secret").unwrap();
    let claims = decode_claims(&token, "secret");
    assert_eq!(claims["sub"], "test");
    let exp = claims["exp"].as_u64().unwrap();
    assert!(exp >= now + 86_400 - 5);
    assert!(exp <= now + 86_400 + 5);
}

#[test]
fn login_token_is_accepted_for_registration() {
    let payload = LoginPayload { username: "test".to_string(), password: "test".to_string() };
    let token = login(&payload, "secret").unwrap();
    assert_eq!(register_event(&token, "secret"), SessionEvent::Register(true));
    assert_eq!(register_event(&token, "other"), SessionEvent::Register(false));
}

#[test]
fn login_at_signs_the_claims_issued_at_that_time() {
    let payload = LoginPayload { username: "test".to_string(), password: "test".to_string() };
    let token = login_at(&payload, Some(1_700_000_000), "k").unwrap();
    assert_eq!(token, hs256("test", 1_700_086_400, "k"));
    let claims = Claims { sub: "test".to_string(), exp: 1_700_086_400 };
    assert_eq!(issue_token(&claims, "k"), token);
}

#[test]
fn login_at_reports_clock_errors() {
    let good = LoginPayload { username: "test".to_string(), password: "test".to_string() };
    let bad = LoginPayload { username: "test".to_string(), password: "x".to_string() };
    let clock_error = AppError::Other("system time out of range".to_string());
    assert_eq!(login_at(&good, None, "k"), Err(clock_error.clone()));
    assert_eq!(login_at(&good, Some(MAX_UTC_TIMESTAMP as u64 + 1), "k"), Err(clock_error.clone()));
    assert_eq!(login_at(&bad, None, "k"), Err(AppError::InvalidCredentials));
    let last = claims_at(&good, Some(MAX_UTC_TIMESTAMP as u64)).unwrap();
    assert_eq!(last.exp, MAX_UTC_TIMESTAMP as usize + 86_400);
    assert_eq!(claims_at(&good, None), Err(clock_error));
}

#[test]
fn registration_rejects_bad_tokens() {
    assert_eq!(register_event("not a token", "k"), SessionEvent::Register(false));
    let expired = hs256("test", 1_000, "k");
    assert_eq!(register_event(&expired, "k"), SessionEvent::Register(false));
    let mut map = serde_json::Map::new();
    map.insert("sub".to_string(), serde_json::Value::from(7));
    map.insert("exp".to_string(), serde_json::Value::from(now_secs() + 3600));
    let numeric_sub =
        jsonwebtoken::encode(&jsonwebtoken::Header::default(), &map, &jsonwebtoken::EncodingKey::from_secret(b"k"))
            .unwrap();
    assert_eq!(register_event(&numeric_sub, "k"), SessionEvent::Register(false));
    let fresh = hs256("test", now_secs() + 3600, "k");
    assert_eq!(register_event(&fresh, "k"), SessionEvent::Register(true));
}

#[test]
fn token_acceptance_needs_a_text_subject() {
    assert!(token_accepted(Some(Some("test".to_string()))));
    assert!(!token_accepted(Some(None)));
    assert!(!token_accepted(None));
}
