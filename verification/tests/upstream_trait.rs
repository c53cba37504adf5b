use flossy::downstream::TransportError;
use flossy::upstream::{DuplicateContentLength1, Status, Test};

#[test]
fn test_trait_request_template() {
    let req = DuplicateContentLength1::request("127.0.0.1:7777");
    assert_eq!(
        req,
        "GET /test1 HTTP/1.1\r\n\
         Host: 127.0.0.1:7777\r\n\
         Connection: close\r\n\
         \r\n"
    );
}

#[test]
fn test_trait_check_expects_bad_gateway() {
    let passed = DuplicateContentLength1::check(b"HTTP/1.1 502 Bad Gateway\r\n\r\n".to_vec());
    assert_eq!(passed, Ok(Status::Passed));
    let failed = DuplicateContentLength1::check(b"HTTP/1.1 200 OK\r\n\r\n".to_vec());
    assert_eq!(
        failed,
        Ok(Status::Failed(
            "Proxy response status must be 502 Bad Gateway",
            b"HTTP/1.1 200 OK\r\n\r\n".to_vec(),
        ))
    );
    let garbage = DuplicateContentLength1::check(b"nope".to_vec());
    assert_eq!(garbage, Err(TransportError::MalformedResponse));
}

#[test]
fn test_trait_name() {
    assert_eq!(
        DuplicateContentLength1::name(),
        "Bad Framing: duplicate Content-Length headers returned by server"
    );
}
