use flossy::downstream::Downstream;
use flossy::upstream::inbound::{parse_inbound, request_complete};
use flossy::upstream::{encode_response, InboundRequest, Upstream};

fn request_to(path: &str, headers: &[(&str, &str)], body: &[u8]) -> InboundRequest {
    InboundRequest {
        path: path.to_string(),
        headers: headers
            .iter()
            .map(|(n, v)| (n.to_string(), v.to_string()))
            .collect(),
        body: body.to_vec(),
    }
}

#[test]
fn test_stub_accepts_chunked_body_of_full_length() {
    let request = request_to(
        "/chunked_and_content_length1",
        &[("Host", "127.0.0.1:7777"), ("Transfer-Encoding", "chunked")],
        &[b'a'; 50],
    );
    let response = Upstream.call(&request);
    assert_eq!(response.code, 200);
    assert_eq!(response.reason, "OK");
}

#[test]
fn test_stub_rejects_leftover_content_length() {
    let request = request_to(
        "/chunked_and_content_length1",
        &[("Content-Length", "20")],
        &[b'a'; 50],
    );
    let response = Upstream.call(&request);
    assert_eq!(response.code, 400);
    assert!(response
        .body
        .contains("Proxy must remove Content-Length header!"));
}

#[test]
fn test_stub_rejects_wrong_body_length() {
    let request = request_to("/chunked_and_content_length1", &[], &[b'a'; 20]);
    let response = Upstream.call(&request);
    assert_eq!(response.code, 400);
    assert!(response.body.contains("Proxy must"));
    assert!(response.body.contains("(20 instead of 50)"));
}

#[test]
fn test_stub_injects_conflicting_content_lengths() {
    let request = request_to("/test1", &[], b"");
    let response = Upstream.call(&request);
    assert_eq!(response.code, 200);
    assert_eq!(
        response.headers,
        vec![
            ("Content-Length".to_string(), "45".to_string()),
            ("Content-Length".to_string(), "20".to_string()),
        ]
    );
    assert_eq!(response.body.len(), 31);
}

#[test]
fn test_stub_marks_misforwarded_request() {
    let request = request_to("/test2", &[], b"whatever");
    let response = Upstream.call(&request);
    assert_eq!(response.code, 200);
    assert_eq!(response.body, "This shouldn't have happened!");
}

#[test]
fn test_stub_answers_unknown_path_with_404() {
    let request = request_to("/elsewhere", &[], b"");
    let response = Upstream.call(&request);
    assert_eq!(response.code, 404);
    assert_eq!(response.reason, "Not Found");
}

#[test]
fn test_encode_response_exact_bytes() {
    let request = request_to("/test2", &[], b"");
    let response = Upstream.call(&request);
    assert_eq!(
        encode_response(&response),
        "HTTP/1.1 200 OK\r\n\
         Content-Length: 29\r\n\
         \r\n\
         This shouldn't have happened!"
    );
}

#[test]
fn test_encode_response_keeps_conflicting_headers() {
    let request = request_to("/test1", &[], b"");
    let encoded = encode_response(&Upstream.call(&request));
    assert!(encoded.starts_with("HTTP/1.1 200 OK\r\n"));
    assert!(encoded.contains("Content-Length: 45\r\nContent-Length: 20\r\n"));
}

#[test]
fn test_parse_inbound_reads_path_headers_and_body() {
    let bytes =
        b"POST /test2 HTTP/1.1\r\nHost: 127.0.0.1:7777\r\nContent-Length: 45\r\nContent-Length: 20\r\n\r\n0123456789";
    let request = parse_inbound(bytes).expect("well-formed request");
    assert_eq!(request.path, "/test2");
    assert_eq!(
        request.headers,
        vec![
            ("Host".to_string(), "127.0.0.1:7777".to_string()),
            ("Content-Length".to_string(), "45".to_string()),
            ("Content-Length".to_string(), "20".to_string()),
        ]
    );
    assert_eq!(request.body, b"0123456789".to_vec());
    assert!(request.has_header("Content-Length"));
    assert!(!request.has_header("Transfer-Encoding"));
}

#[test]
fn test_parse_inbound_rejects_torso_without_blank_line() {
    assert!(parse_inbound(b"GET / HTTP/1.1\r\nHost: x\r\n").is_none());
}

#[test]
fn test_parse_inbound_rejects_header_without_colon() {
    assert!(parse_inbound(b"GET / HTTP/1.1\r\nbogus line\r\n\r\n").is_none());
}

#[test]
fn test_parse_inbound_rejects_missing_request_line_parts() {
    assert!(parse_inbound(b"GET/HTTP/1.1\r\n\r\n").is_none());
}

#[test]
fn test_respond_routes_parsed_requests() {
    let bytes = b"GET /test1 HTTP/1.1\r\nHost: x\r\n\r\n";
    let answer = Upstream.respond(bytes).expect("routable request");
    assert!(answer.contains("Content-Length: 45\r\nContent-Length: 20\r\n"));
    assert!(Upstream.respond(b"not http at all").is_none());
}

#[test]
fn test_downstream_service_single_route() {
    let response = Downstream.call(&request_to("/test1", &[], b""));
    assert_eq!(response.code, 200);
    assert_eq!(
        response.headers,
        vec![
            ("Content-Length".to_string(), "45".to_string()),
            ("Content-Length".to_string(), "20".to_string()),
        ]
    );
    assert_eq!(response.body, "aaaaaaaaaaaaaaaaaaaa");
    let missing = Downstream.call(&request_to("/test2", &[], b""));
    assert_eq!(missing.code, 404);
    assert!(missing.headers.is_empty());
}

#[test]
fn test_parse_inbound_rejects_empty_input() {
    assert!(parse_inbound(b"").is_none());
}

#[test]
fn test_parse_inbound_of_blank_line_only() {
    assert!(parse_inbound(b"\r\n\r\n").is_none());
}

#[test]
fn test_request_complete_waits_for_declared_body() {
    let head = b"POST /test2 HTTP/1.1\r\nContent-Length: 10\r\n\r\n";
    assert!(!request_complete(head));
    let mut partial = head.to_vec();
    partial.extend_from_slice(b"01234");
    assert!(!request_complete(&partial));
    let mut full = head.to_vec();
    full.extend_from_slice(b"0123456789");
    assert!(request_complete(&full));
}

#[test]
fn test_request_complete_without_length_or_blank_line() {
    assert!(!request_complete(b"GET / HTTP/1.1\r\n"));
    assert!(request_complete(b"GET / HTTP/1.1\r\nHost: x\r\n\r\n"));
}

#[test]
fn test_request_complete_takes_largest_declared_length() {
    let head = b"POST /test2 HTTP/1.1\r\nContent-Length: 2\r\ncontent-length: 6\r\n\r\n";
    let mut bytes = head.to_vec();
    bytes.extend_from_slice(b"ab");
    assert!(!request_complete(&bytes));
    bytes.extend_from_slice(b"cdef");
    assert!(request_complete(&bytes));
}
