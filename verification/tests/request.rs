use flossy::downstream::request::{Request, Verb};

#[test]
fn test_default_request() {
    let req = Request::new().build();
    assert_eq!(
        req,
        "GET / HTTP/1.1\r\n\
         Host: \r\n\
         \r\n"
    )
}

#[test]
fn test_request_header() {
    let req = Request::new().with_header("Content-Length: 45").build();
    assert_eq!(
        req,
        "GET / HTTP/1.1\r\n\
         Host: \r\n\
         Content-Length: 45\r\n\
         \r\n"
    )
}

#[test]
fn test_request_multiple_same_header() {
    let req = Request::new()
        .with_header("Content-Length: 45")
        .with_header("Content-Length: 20")
        .build();
    assert_eq!(
        req,
        "GET / HTTP/1.1\r\n\
         Host: \r\n\
         Content-Length: 45\r\n\
         Content-Length: 20\r\n\
         \r\n"
    )
}

#[test]
fn test_duplicate_header_lines_kept_in_order_with_one_terminator() {
    let req = Request::new()
        .with_header("Content-Length: 45")
        .with_header("Content-Length: 20")
        .build();
    let first = req.find("Content-Length: 45").expect("first line missing");
    let second = req.find("Content-Length: 20").expect("second line missing");
    assert!(first < second, "header lines must keep their supplied order");
    assert_eq!(req.matches("Content-Length").count(), 2);
    assert_eq!(req.matches("\r\n\r\n").count(), 1);
    assert!(req.ends_with("\r\n\r\n"));
}

#[test]
fn test_request_verb_host_path_body() {
    let req = Request::new()
        .with_verb(Verb::Post)
        .with_host("example.test:7777")
        .with_path("/anywhere")
        .with_body("0123456789")
        .build();
    assert_eq!(
        req,
        "POST /anywhere HTTP/1.1\r\n\
         Host: example.test:7777\r\n\
         \r\n\
         0123456789"
    )
}

#[test]
fn test_verb_tokens() {
    assert_eq!(Verb::Get.as_str(), "GET");
    assert_eq!(Verb::Put.as_str(), "PUT");
    assert_eq!(Verb::Post.as_str(), "POST");
    assert_eq!(Verb::Delete.as_str(), "DELETE");
    assert_eq!(Verb::default(), Verb::Get);
}

#[test]
fn test_specialize_replaces_host_only() {
    let mut template = Request::new();
    template.with_path("/test1").with_header("X-Extra: yes");
    let live = template.specialize("127.0.0.1:7777");
    assert_eq!(
        live.build(),
        "GET /test1 HTTP/1.1\r\n\
         Host: 127.0.0.1:7777\r\n\
         X-Extra: yes\r\n\
         \r\n"
    );
    // the template itself keeps its empty host
    assert!(template.build().contains("Host: \r\n"));
}
