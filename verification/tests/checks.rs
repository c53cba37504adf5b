use flossy::downstream::check::{check_bad_gateway, check_bad_request, check_chunked, run_check, Check};
use flossy::downstream::{Status, TransportError};

#[test]
fn test_bad_gateway_checker_passes_on_502() {
    let response = b"HTTP/1.1 502 Bad Gateway\r\n\r\n".to_vec();
    assert_eq!(check_bad_gateway(response), Ok(Status::Passed));
}

#[test]
fn test_bad_gateway_checker_fails_on_200_with_bytes_attached() {
    let response = b"HTTP/1.1 200 OK\r\n\r\nbody".to_vec();
    let conclusion = check_bad_gateway(response.clone());
    match conclusion {
        Ok(Status::Failed { why, bytes }) => {
            assert_eq!(why, "Proxy response status must be 502 Bad Gateway");
            assert_eq!(bytes, response);
        }
        other => panic!("expected a failed assertion, got {:?}", other),
    }
}

#[test]
fn test_bad_gateway_checker_rejects_garbage() {
    let response = b"ceci n'est pas une reponse\r\n\r\n".to_vec();
    assert_eq!(
        check_bad_gateway(response),
        Err(TransportError::MalformedResponse)
    );
}

#[test]
fn test_bad_request_checker_passes_on_400() {
    let response = b"HTTP/1.1 400 Bad Request\r\n\r\n".to_vec();
    assert_eq!(check_bad_request(response), Ok(Status::Passed));
}

#[test]
fn test_bad_request_checker_fails_on_forwarded_response() {
    let response = b"HTTP/1.1 200 OK\r\n\r\nsmuggled".to_vec();
    match check_bad_request(response.clone()) {
        Ok(Status::Failed { why, bytes }) => {
            assert_eq!(why, "Proxy response status must be 400 Bad Request");
            assert_eq!(bytes, response);
        }
        other => panic!("expected a failed assertion, got {:?}", other),
    }
}

#[test]
fn test_bad_request_checker_fails_even_on_502() {
    let response = b"HTTP/1.1 502 Bad Gateway\r\n\r\n".to_vec();
    assert!(matches!(
        check_bad_request(response),
        Ok(Status::Failed { .. })
    ));
}

#[test]
fn test_chunked_checker_passes_on_200() {
    let response = b"HTTP/1.1 200 OK\r\nContent-Length: 0\r\n\r\n".to_vec();
    assert_eq!(check_chunked(response), Ok(Status::Passed));
}

#[test]
fn test_chunked_checker_locates_diagnostic() {
    let response = b"HTTP/1.1 400 Bad Request\r\n\r\nProxy must remove Content-Length header!".to_vec();
    match check_chunked(response.clone()) {
        Ok(Status::FailedMessage { idx, text }) => {
            assert_eq!(idx, 28);
            assert_eq!(text.as_bytes(), response.as_slice());
            assert_eq!(&text[idx..], "Proxy must remove Content-Length header!");
        }
        other => panic!("expected a located diagnostic, got {:?}", other),
    }
}

#[test]
fn test_chunked_checker_offset_zero_without_marker() {
    let response = b"HTTP/1.1 404 Not Found\r\n\r\nnothing here".to_vec();
    match check_chunked(response) {
        Ok(Status::FailedMessage { idx, .. }) => assert_eq!(idx, 0),
        other => panic!("expected a failed message, got {:?}", other),
    }
}

#[test]
fn test_chunked_checker_rejects_non_text_response() {
    let mut response = b"HTTP/1.1 400 Bad Request\r\n\r\n".to_vec();
    response.push(0xff);
    response.push(0xfe);
    assert_eq!(
        check_chunked(response),
        Err(TransportError::NonTextResponse)
    );
}

#[test]
fn test_checkers_are_idempotent() {
    let buffers: [&[u8]; 4] = [
        b"HTTP/1.1 502 Bad Gateway\r\n\r\n",
        b"HTTP/1.1 200 OK\r\n\r\nbody",
        b"HTTP/1.1 400 Bad Request\r\n\r\nProxy must remove Content-Length header!",
        b"not even http",
    ];
    for buffer in buffers {
        let first = run_check(Check::ExpectsBadGateway, buffer.to_vec());
        let second = run_check(Check::ExpectsBadGateway, buffer.to_vec());
        assert_eq!(first, second);
        let first = run_check(Check::ExpectsChunkedHonored, buffer.to_vec());
        let second = run_check(Check::ExpectsChunkedHonored, buffer.to_vec());
        assert_eq!(first, second);
    }
}

#[test]
fn test_run_check_dispatches_by_kind() {
    let response = b"HTTP/1.1 502 Bad Gateway\r\n\r\n".to_vec();
    assert_eq!(
        run_check(Check::ExpectsBadGateway, response.clone()),
        Ok(Status::Passed)
    );
    assert!(matches!(
        run_check(Check::ExpectsChunkedHonored, response),
        Ok(Status::FailedMessage { .. })
    ));
}
