use axum::http::{HeaderMap, HeaderValue};
use rathole::health::{HealthStatus, TunnelHealth, HYSTERESIS_NS, SUCCESS_TO_NORMAL, WARNING_TO_CRITICAL_FAILURES};
use rathole::protocol::tunnel_request;
use rathole::routing::{choose_best_tunnel, plan_route, TunnelCandidate};
use rathole::session::{cloud_outcome, exchange_outcome, CloudEvent, ExchangeEvent};

fn candidate(id: &str, health: Option<TunnelHealth>, error_rate: Option<f64>, latency: Option<f64>) -> TunnelCandidate {
    TunnelCandidate {
        id: id.to_string(),
        health,
        error_rate_key: error_rate.unwrap_or(0.5).to_bits(),
        latency_key: latency.unwrap_or(9999.0).to_bits(),
    }
}

fn with_status(status: HealthStatus, now: u64) -> TunnelHealth {
    let mut h = TunnelHealth::new(now);
    h.status = status;
    h
}

#[test]
fn test_headers_to_map() {
    let mut headers = HeaderMap::new();
    headers.insert("Content-Type", HeaderValue::from_static("application/json"));
    headers.insert("X-Custom-Header", HeaderValue::from_static("some-value"));

    let result = rathole::headers::headers_to_map(&headers);

    assert_eq!(result.len(), 2);
    assert!(result.contains(&("content-type".to_string(), "application/json".to_string())));
    assert!(result.contains(&("x-custom-header".to_string(), "some-value".to_string())));
}

#[test]
fn test_proxy_handler_with_tunnel() {
    let subdomain = "test-subdomain";
    let now = 1_000;
    let tunnels = vec![candidate(subdomain, None, None, None)];
    let mut headers = HeaderMap::new();
    headers.insert("Host", HeaderValue::from_str(&format!("{}.example.com", subdomain)).unwrap());

    // The request goes through the registered tunnel ...
    let route = plan_route(&headers, &tunnels, now);
    assert_eq!(route, Some(0));
    // ... and, as the tunnel never answers, ends in a gateway timeout.
    let outcome = exchange_outcome(ExchangeEvent::TimedOut);
    assert_eq!(outcome.error_status, Some(504));
}

#[test]
fn test_proxy_handler_no_tunnel() {
    let subdomain = "unassigned-subdomain";
    let tunnels: Vec<TunnelCandidate> = Vec::new();
    let mut headers = HeaderMap::new();
    headers.insert("Host", HeaderValue::from_str(&format!("{}.example.com", subdomain)).unwrap());

    // No tunnel: the request goes to the cloud backend, which is not running.
    assert_eq!(plan_route(&headers, &tunnels, 0), None);
    let status = cloud_outcome(CloudEvent::Failed).unwrap();
    assert!(status == 502 || status == 504);
    assert_eq!(cloud_outcome(CloudEvent::TimedOut), Some(504));
}

#[test]
fn test_forward_via_tunnel() {
    let mut headers = HeaderMap::new();
    headers.insert("Content-Type", HeaderValue::from_static("application/json"));
    let body = r#"{"key":"value"}"#.as_bytes().to_vec();

    let (request_id, http) = tunnel_request("POST".to_string(), Some("/test-path"), &headers, body);

    assert_eq!(request_id.len(), 36);
    assert_eq!(http.method, "POST");
    assert_eq!(http.path, "/test-path");
    assert_eq!(http.body, r#"{"key":"value"}"#.as_bytes());
    assert_eq!(http.headers, vec![("content-type".to_string(), "application/json".to_string())]);
    let outcome = exchange_outcome(ExchangeEvent::Replied);
    assert_eq!(outcome.error_status, None);
}

#[test]
fn test_choose_best_tunnel_logic() {
    let subdomain = "app";
    let now = 5_000;
    let mut tunnels = vec![
        // Good: Normal, low latency, low error rate
        candidate("app-01", Some(with_status(HealthStatus::Normal, now)), Some(0.1), Some(50.0)),
        // Bad: Critical status
        candidate("app-02", Some(with_status(HealthStatus::Critical, now)), Some(0.0), None),
        // OK: Normal, but higher latency and error rate
        candidate("app-03", Some(with_status(HealthStatus::Normal, now)), Some(0.2), Some(200.0)),
        // Warning status
        candidate("app-warning", Some(with_status(HealthStatus::Warning, now)), Some(0.5), Some(100.0)),
        candidate("other-svc", None, None, None),
    ];

    let result = choose_best_tunnel(&tunnels, subdomain);
    assert!(result.is_some(), "Should have chosen a tunnel");
    let chosen_id = tunnels[result.unwrap()].id.clone();
    assert_eq!(chosen_id, "app-01", "Should pick the best Normal tunnel (app-01)");

    tunnels.retain(|t| t.id != "app-01");
    let result2 = choose_best_tunnel(&tunnels, subdomain);
    assert!(result2.is_some(), "Should have chosen a tunnel after removing the best");
    let chosen_id2 = tunnels[result2.unwrap()].id.clone();
    assert_eq!(chosen_id2, "app-03", "Should pick the next best Normal tunnel (app-03)");

    tunnels.retain(|t| t.id != "app-03");
    let result3 = choose_best_tunnel(&tunnels, subdomain);
    assert!(result3.is_some(), "Should have chosen a tunnel after removing all Normal");
    let chosen_id3 = tunnels[result3.unwrap()].id.clone();
    assert_eq!(chosen_id3, "app-warning", "Should pick the Warning tunnel as a last resort");

    tunnels.retain(|t| t.id != "app-warning");
    let result4 = choose_best_tunnel(&tunnels, subdomain);
    assert!(result4.is_none(), "Should not pick a Critical tunnel");
}

#[test]
fn test_health_transitions() {
    // The record of a tunnel first seen at time 0; time then advances by the
    // hysteresis period where the scenario waits for it.
    let mut clock: u64 = 0;
    let mut health = TunnelHealth::new(clock);

    clock += HYSTERESIS_NS;
    health.mark_failure(clock);
    assert!(matches!(health.status, HealthStatus::Warning), "First failure should trigger Warning status");
    assert_eq!(health.consecutive_failures, 1);

    clock += HYSTERESIS_NS;
    for _ in 1..WARNING_TO_CRITICAL_FAILURES {
        health.mark_failure(clock);
    }
    assert!(matches!(health.status, HealthStatus::Warning), "Should remain Warning until final failure");
    assert_eq!(health.consecutive_failures, WARNING_TO_CRITICAL_FAILURES);

    clock += HYSTERESIS_NS;
    health.mark_failure(clock);
    assert!(matches!(health.status, HealthStatus::Critical), "Exceeding failure threshold should trigger Critical status");

    clock += HYSTERESIS_NS;
    health.mark_success(clock);
    assert!(
        matches!(health.status, HealthStatus::Critical),
        "A Critical tunnel should not recover to Warning on a single success"
    );

    health.status = HealthStatus::Warning;

    clock += HYSTERESIS_NS;
    for _ in 0..SUCCESS_TO_NORMAL {
        health.mark_success(clock);
    }
    assert!(matches!(health.status, HealthStatus::Normal), "Should recover to Normal after enough successes");
    assert_eq!(health.consecutive_failures, 0);
    assert_eq!(health.consecutive_successes, SUCCESS_TO_NORMAL);
}

#[test]
fn direct_route_carries_the_request() {
    let mut headers = HeaderMap::new();
    headers.insert("Content-Type", HeaderValue::from_static("text/plain"));
    headers.insert("X-Trace", HeaderValue::from_static("abc"));
    assert!(rathole::headers::headers_are_text(&headers));
    let (request_id, http) =
        rathole::protocol::direct_request("GET".to_string(), "some/path", &headers, b"hi".to_vec());
    assert_eq!(request_id.len(), 36);
    assert_eq!(http.method, "GET");
    assert_eq!(http.path, "some/path");
    assert_eq!(http.body, b"hi".to_vec());
    assert_eq!(http.headers.len(), 2);
    assert!(http.headers.contains(&("x-trace".to_string(), "abc".to_string())));

    let mut binary = HeaderMap::new();
    binary.insert("x-bin", HeaderValue::from_bytes(&[0xff]).unwrap());
    assert!(!rathole::headers::headers_are_text(&binary));
}
