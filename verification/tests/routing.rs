use axum::http::{HeaderMap, HeaderValue};
use rathole::cookies::{cookie_value, get_cookie_value, host_subdomain, route_cookies, subdomain, tunnel_cookie};
use rathole::health::{is_healthy, HealthStatus, TunnelHealth, STALE_THRESHOLD_NS};
use rathole::routing::{cloud_target, decide_routing, plan_route, relay_target, RoutingDecision, TunnelCandidate};

fn candidate(id: &str, health: Option<TunnelHealth>) -> TunnelCandidate {
    TunnelCandidate {
        id: id.to_string(),
        health,
        error_rate_key: 0.5f64.to_bits(),
        latency_key: 9999.0f64.to_bits(),
    }
}

fn request(host: &str, cookie: Option<&str>) -> HeaderMap {
    let mut headers = HeaderMap::new();
    headers.insert("Host", HeaderValue::from_str(host).unwrap());
    if let Some(c) = cookie {
        headers.insert("Cookie", HeaderValue::from_str(c).unwrap());
    }
    headers
}

#[test]
fn cookie_values_are_found_among_pairs() {
    assert_eq!(cookie_value("a=1; tunnel=app-01; b=2", "tunnel"), Some("app-01".to_string()));
    assert_eq!(cookie_value("tunnel=x", "tunnel"), Some("x".to_string()));
    assert_eq!(cookie_value("  tunnel=spaced  ;x=1", "tunnel"), Some("spaced".to_string()));
    assert_eq!(cookie_value("tunnels=no; tunnel=yes", "tunnel"), Some("yes".to_string()));
    assert_eq!(cookie_value("tunnel=first; tunnel=second", "tunnel"), Some("first".to_string()));
    assert_eq!(cookie_value("other=1", "tunnel"), None);
    assert_eq!(cookie_value("", "tunnel"), None);
    assert_eq!(cookie_value("tunnel=", "tunnel"), Some(String::new()));
}

#[test]
fn cookie_header_is_read_from_requests() {
    let headers = request("app.example.com", Some("session=abc; tunnel=app-02"));
    assert_eq!(get_cookie_value(&headers, "tunnel"), Some("app-02".to_string()));
    assert_eq!(get_cookie_value(&headers, "session"), Some("abc".to_string()));
    assert_eq!(get_cookie_value(&headers, "missing"), None);
    let no_cookie = request("app.example.com", None);
    assert_eq!(get_cookie_value(&no_cookie, "tunnel"), None);
}

#[test]
fn tunnel_cookie_round_trips() {
    let set = tunnel_cookie("app-01");
    assert_eq!(set, "tunnel=app-01; Path=/; HttpOnly");
    assert_eq!(cookie_value(&set, "tunnel"), Some("app-01".to_string()));
}

#[test]
fn response_cookies_name_the_backend() {
    assert_eq!(
        route_cookies(Some("app-01")),
        vec!["tunnel=app-01; Path=/; HttpOnly".to_string(), "backend=local; Path=/".to_string()]
    );
    assert_eq!(
        route_cookies(None),
        vec!["backend=cloud; Path=/".to_string(), "tunnel=cloud; Path=/; HttpOnly".to_string()]
    );
}

#[test]
fn subdomain_is_the_first_label() {
    assert_eq!(subdomain("test.127.0.0.1"), "test");
    assert_eq!(subdomain("localhost"), "localhost");
    assert_eq!(subdomain(""), "");
    assert_eq!(subdomain(".example.com"), "");
    assert_eq!(host_subdomain(&request("app-01.example.com", None)), "app-01");
    assert_eq!(host_subdomain(&HeaderMap::new()), "");
}

#[test]
fn cloud_target_joins_backend_and_path() {
    assert_eq!(cloud_target("http://127.0.0.1:4000", Some("/a?b=1")), "http://127.0.0.1:4000/a?b=1");
    assert_eq!(cloud_target("http://127.0.0.1:4000///", Some("/x")), "http://127.0.0.1:4000/x");
    assert_eq!(cloud_target("http://cloud", None), "http://cloud/");
}

#[test]
fn routing_decisions_follow_health() {
    let now = 100 * STALE_THRESHOLD_NS;
    assert_eq!(decide_routing(None, now), RoutingDecision::RouteLocal);
    let fresh = TunnelHealth::new(now);
    assert_eq!(decide_routing(Some(&fresh), now), RoutingDecision::RouteLocal);
    let mut warning = fresh;
    warning.status = HealthStatus::Warning;
    assert_eq!(decide_routing(Some(&warning), now), RoutingDecision::HybridSticky);
    let mut critical = fresh;
    critical.status = HealthStatus::Critical;
    assert_eq!(decide_routing(Some(&critical), now), RoutingDecision::ForceCloud);
    let old = TunnelHealth::new(now - STALE_THRESHOLD_NS - 1);
    assert_eq!(decide_routing(Some(&old), now), RoutingDecision::ForceCloud);
    let edge = TunnelHealth::new(now - STALE_THRESHOLD_NS);
    assert_eq!(decide_routing(Some(&edge), now), RoutingDecision::RouteLocal);
    assert!(!is_healthy(Some(&edge), now));
    assert!(is_healthy(None, now));
}

#[test]
fn healthy_local_tunnel_takes_traffic() {
    let now = 1_000;
    let tunnels = vec![candidate("other", None), candidate("test", Some(TunnelHealth::new(now)))];
    assert_eq!(plan_route(&request("test.127.0.0.1", None), &tunnels, now), Some(1));
}

#[test]
fn stale_tunnel_fails_over_to_cloud() {
    let tunnels = vec![candidate("test", Some(TunnelHealth::new(0)))];
    let later = STALE_THRESHOLD_NS + 10;
    assert_eq!(plan_route(&request("test.127.0.0.1", None), &tunnels, later), None);
    // also when the client was pinned to that tunnel
    let pinned = request("test.127.0.0.1", Some("backend=local; tunnel=test"));
    assert_eq!(plan_route(&pinned, &tunnels, later), None);
}

#[test]
fn pinned_client_sticks_to_its_tunnel() {
    let now = 1_000;
    let tunnels = vec![
        candidate("app-01", Some(TunnelHealth::new(now))),
        candidate("app-02", Some(TunnelHealth::new(now))),
    ];
    let headers = request("app.example.com", Some("tunnel=app-02"));
    assert_eq!(plan_route(&headers, &tunnels, now), Some(1));
    // a pin to an unknown tunnel falls back to the best one
    let headers = request("app.example.com", Some("tunnel=app-09"));
    assert_eq!(plan_route(&headers, &tunnels, now), Some(0));
}

#[test]
fn cloud_pinned_client_stays_on_cloud() {
    let now = 1_000;
    let tunnels = vec![candidate("test", Some(TunnelHealth::new(now)))];
    let headers = request("test.127.0.0.1", Some("backend=cloud"));
    assert_eq!(plan_route(&headers, &tunnels, now), None);
    let headers = request("test.127.0.0.1", Some("tunnel=cloud"));
    assert_eq!(plan_route(&headers, &tunnels, now), Some(0));
}

#[test]
fn relay_routes_by_first_label() {
    let registered = vec!["test-tunnel".to_string()];
    assert_eq!(relay_target(&request("test-tunnel.localhost", None), &registered), Some("test-tunnel".to_string()));
    assert_eq!(relay_target(&request("another-tunnel.localhost", None), &registered), None);
    assert_eq!(relay_target(&HeaderMap::new(), &registered), None);
}

#[test]
fn cookie_pairs_are_trimmed_of_unicode_whitespace() {
    assert_eq!(cookie_value("\u{a0}tunnel=x\u{3000}", "tunnel"), Some("x".to_string()));
    assert_eq!(cookie_value("a=1;\ttunnel=y", "tunnel"), Some("y".to_string()));
    // whitespace inside a pair is kept
    assert_eq!(cookie_value("tunnel=a b", "tunnel"), Some("a b".to_string()));
}

#[test]
fn header_values_that_are_not_text_are_skipped() {
    let mut headers = HeaderMap::new();
    headers.insert("x-bin", HeaderValue::from_bytes(&[0xff, 0x41]).unwrap());
    headers.insert("x-text", HeaderValue::from_static("ok"));
    let map = rathole::headers::headers_to_map(&headers);
    assert_eq!(map, vec![("x-text".to_string(), "ok".to_string())]);
    assert_eq!(rathole::headers::header_text_value(&headers, "x-bin"), None);
    assert_eq!(rathole::headers::header_text_value(&headers, "x-text"), Some("ok".to_string()));
    assert!(rathole::headers::is_visible_text(b"a\tb ~"));
    assert!(!rathole::headers::is_visible_text(&[0x7f]));
}

#[test]
fn returned_cookies_keep_the_client_on_its_tunnel() {
    let now = 1_000;
    let tunnels = vec![
        candidate("app-01", Some(TunnelHealth::new(now))),
        candidate("app-02", Some(TunnelHealth::new(now))),
    ];
    for cookie in ["tunnel=app-02", "tunnel=app-02; backend=local", "backend=local; tunnel=app-02"] {
        let headers = request("app.example.com", Some(cookie));
        assert_eq!(plan_route(&headers, &tunnels, now), Some(1));
    }
}

#[test]
fn cloud_cookie_pins_only_unpinned_clients() {
    assert_eq!(rathole::cookies::cloud_cookie(false), Some("backend=cloud; Path=/".to_string()));
    assert_eq!(rathole::cookies::cloud_cookie(true), None);
}

#[test]
fn cloud_request_uri_parses_the_target() {
    let uri = rathole::routing::cloud_request_uri("http://localhost:4000//", Some("/a/b?x=1")).unwrap();
    assert_eq!(uri.to_string(), "http://localhost:4000/a/b?x=1");
    assert_eq!(uri.host(), Some("localhost"));
    let root = rathole::routing::cloud_request_uri("http://localhost:4000", None).unwrap();
    assert_eq!(root.path(), "/");
}

#[test]
fn cloud_request_uri_rejects_a_bad_backend() {
    assert!(matches!(
        rathole::routing::cloud_request_uri("http://bad host", Some("/")),
        Err(rathole::session::CloudEvent::BadTarget)
    ));
    assert!(rathole::routing::cloud_request_uri("", Some("/x y")).is_err());
}
