use rathole::protocol::HardwareData;

#[test]
fn test_hardware_data_debug() {
    let hardware_data = HardwareData {
        operating_system: "TestOS".to_string(),
        total_memory: 1024,
        used_memory: 512,
        total_swap: 2048,
        used_swap: 1024,
        cpu_usage: 0.75,
        avg_temp: 55.5,
        max_temp: 70.0,
    };

    let debug_output = format!("{:?}", hardware_data);

    assert!(debug_output.contains("operating_system: \"TestOS\""));
    assert!(debug_output.contains("total_memory: 1024"));
    assert!(debug_output.contains("used_memory: 512"));
    assert!(debug_output.contains("total_swap: 2048"));
    assert!(debug_output.contains("used_swap: 1024"));
    assert!(debug_output.contains("cpu_usage: 0.75"));
    assert!(debug_output.contains("avg_temp: 55.5"));
    assert!(debug_output.contains("max_temp: 70.0"));
}

#[test]
fn local_target_prefixes_the_local_service() {
    assert_eq!(rathole::protocol::local_target("/api/items?page=2"), "http://127.0.0.1:8000/api/items?page=2");
    assert_eq!(rathole::protocol::local_target(""), "http://127.0.0.1:8000");
}

#[test]
fn local_reply_carries_status_headers_and_body() {
    let mut headers = axum::http::HeaderMap::new();
    headers.insert("content-type", axum::http::HeaderValue::from_static("text/plain"));
    headers.append("x-tag", axum::http::HeaderValue::from_static("a"));
    headers.append("x-tag", axum::http::HeaderValue::from_static("b"));
    assert!(rathole::headers::headers_are_text(&headers));
    let reply = rathole::protocol::local_reply(201, &headers, b"done".to_vec());
    assert_eq!(reply.status, 201);
    assert_eq!(
        reply.headers,
        vec![
            ("content-type".to_string(), "text/plain".to_string()),
            ("x-tag".to_string(), "a".to_string()),
            ("x-tag".to_string(), "b".to_string()),
        ]
    );
    assert_eq!(reply.body, b"done".to_vec());
}

#[test]
fn unreachable_local_service_gives_bad_gateway() {
    let reply = rathole::protocol::bad_gateway_reply();
    assert_eq!(reply.status, 502);
    assert!(reply.headers.is_empty());
    assert_eq!(reply.body, b"Bad Gateway".to_vec());
}

#[test]
fn request_ids_are_hyphenated_v4_uuids() {
    let headers = axum::http::HeaderMap::new();
    let (id, request) = rathole::protocol::tunnel_request("GET".to_string(), None, &headers, vec![]);
    assert_eq!(request.path, "/");
    let chars: Vec<char> = id.chars().collect();
    assert_eq!(chars.len(), 36);
    for (i, c) in chars.iter().enumerate() {
        if [8, 13, 18, 23].contains(&i) {
            assert_eq!(*c, '-');
        } else {
            assert!(c.is_ascii_digit() || ('a'..='f').contains(c));
        }
    }
    assert_eq!(chars[14], '4');
    assert!(['8', '9', 'a', 'b'].contains(&chars[19]));
}
