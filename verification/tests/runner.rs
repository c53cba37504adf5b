use flossy::downstream::check::Check;
use flossy::downstream::request::Verb;
use flossy::downstream::{
    catalog, conflicting_content_length_req, conflicting_content_length_resp,
    conflicting_transfer_encoding_req, partition_results, summarize, Advance, Event, Phase,
    Status, TestResult, TransportError,
};
use flossy::text::{decimal_string, find_first};

#[test]
fn test_catalog_names_and_templates() {
    let tests = catalog();
    assert_eq!(tests.len(), 3);
    assert_eq!(tests[0].name, "Bad Framing 1");
    assert_eq!(tests[1].name, "Bad Framing 2");
    assert_eq!(tests[2].name, "Bad Framing 3");
    assert_eq!(
        tests[0].request_string("127.0.0.1:7777"),
        "GET /test1 HTTP/1.1\r\n\
         Host: 127.0.0.1:7777\r\n\
         Connection: close\r\n\
         \r\n"
    );
    assert_eq!(
        tests[1].request_string("127.0.0.1:7777"),
        "POST /test2 HTTP/1.1\r\n\
         Host: 127.0.0.1:7777\r\n\
         Content-Length: 45\r\n\
         Content-Length: 20\r\n\
         \r\n\
         aaaaabbbbbaaaaabbbbbaaaaabbbbbaaaaabbbbbaaaaabbbbb"
    );
    assert_eq!(
        tests[2].request_string("127.0.0.1:7777"),
        "POST /chunked_and_content_length1 HTTP/1.1\r\n\
         Host: 127.0.0.1:7777\r\n\
         Content-Length: 20\r\n\
         Transfer-Encoding: chunked\r\n\
         \r\n\
         aaaaabbbbbaaaaabbbbbaaaaabbbbbaaaaabbbbbaaaaabbbbb"
    );
}

#[test]
fn test_catalog_entry_shapes() {
    let first = conflicting_content_length_resp();
    assert_eq!(first.request.verb, Verb::Get);
    assert_eq!(first.check, Check::ExpectsBadGateway);
    let second = conflicting_content_length_req();
    assert_eq!(second.request.verb, Verb::Post);
    assert_eq!(second.check, Check::ExpectsBadRequest);
    let third = conflicting_transfer_encoding_req();
    assert_eq!(third.request.uri, "/chunked_and_content_length1");
    assert_eq!(third.check, Check::ExpectsChunkedHonored);
}

#[test]
fn test_advance_walks_the_pipeline() {
    let test = conflicting_content_length_resp();
    match test.advance(Phase::Connecting, Event::Succeeded) {
        Advance::Continue(next) => assert_eq!(next, Phase::Sending),
        other => panic!("expected to keep going, got {:?}", other),
    }
    match test.advance(Phase::Sending, Event::Succeeded) {
        Advance::Continue(next) => assert_eq!(next, Phase::Reading),
        other => panic!("expected to keep going, got {:?}", other),
    }
    let response = b"HTTP/1.1 502 Bad Gateway\r\n\r\n".to_vec();
    match test.advance(Phase::Reading, Event::Received(response)) {
        Advance::Finished(result) => {
            assert_eq!(result.name, "Bad Framing 1");
            assert_eq!(result.status, Ok(Status::Passed));
        }
        other => panic!("expected a finished test, got {:?}", other),
    }
}

#[test]
fn test_advance_maps_failures_to_their_phase() {
    let test = conflicting_content_length_resp();
    let expectations = [
        (Phase::Connecting, TransportError::Connect),
        (Phase::Sending, TransportError::Write),
        (Phase::Reading, TransportError::Read),
    ];
    for (phase, error) in expectations {
        match test.advance(phase, Event::TransportFailed) {
            Advance::Finished(result) => assert_eq!(result.status, Err(error)),
            other => panic!("expected a finished test, got {:?}", other),
        }
    }
}

#[test]
fn test_unreachable_proxy_counts_only_errors() {
    let mut results = Vec::new();
    for test in catalog() {
        match test.advance(Phase::Connecting, Event::TransportFailed) {
            Advance::Finished(result) => results.push(result),
            Advance::Continue(_) => panic!("a transport failure must finish the test"),
        }
    }
    assert!(results.iter().all(|r| matches!(r.status, Err(TransportError::Connect))));
    let summary = summarize(&results);
    assert_eq!(summary.passed, 0);
    assert_eq!(summary.failed, 0);
    assert_eq!(summary.errored, 3);
    let (successes, rest) = partition_results(results);
    assert!(successes.is_empty());
    assert_eq!(rest.len(), 3);
}

#[test]
fn test_two_runs_classify_identically() {
    let responses: [&[u8]; 3] = [
        b"HTTP/1.1 502 Bad Gateway\r\n\r\n",
        b"HTTP/1.1 200 OK\r\n\r\nforwarded",
        b"HTTP/1.1 400 Bad Request\r\n\r\nProxy must remove Content-Length header!",
    ];
    let run = || -> Vec<TestResult> {
        catalog()
            .into_iter()
            .zip(responses.iter())
            .map(|(test, response)| {
                match test.advance(Phase::Reading, Event::Received(response.to_vec())) {
                    Advance::Finished(result) => result,
                    Advance::Continue(_) => panic!("a response must finish the test"),
                }
            })
            .collect()
    };
    let first = run();
    let second = run();
    assert_eq!(first, second);
    let summary = summarize(&first);
    assert_eq!(summary.passed, 1);
    assert_eq!(summary.failed, 2);
    assert_eq!(summary.errored, 0);
}

#[test]
fn test_summarize_and_partition_mixed_results() {
    let results = vec![
        TestResult {
            name: "a",
            description: "",
            status: Ok(Status::Passed),
        },
        TestResult {
            name: "b",
            description: "",
            status: Ok(Status::Failed {
                why: "wrong status",
                bytes: b"HTTP/1.1 200 OK\r\n\r\n".to_vec(),
            }),
        },
        TestResult {
            name: "c",
            description: "",
            status: Err(TransportError::Read),
        },
    ];
    assert!(results[0].is_passed());
    assert!(!results[1].is_passed());
    assert!(!results[2].is_passed());
    let summary = summarize(&results);
    assert_eq!((summary.passed, summary.failed, summary.errored), (1, 1, 1));
    let (successes, rest) = partition_results(results);
    assert_eq!(successes.len(), 1);
    assert_eq!(successes[0].name, "a");
    assert_eq!(rest.len(), 2);
    assert_eq!(rest[0].name, "b");
    assert_eq!(rest[1].name, "c");
}

#[test]
fn test_decimal_rendering() {
    assert_eq!(decimal_string(0), "0");
    assert_eq!(decimal_string(7), "7");
    assert_eq!(decimal_string(45), "45");
    assert_eq!(decimal_string(7777), "7777");
    assert_eq!(decimal_string(120406), "120406");
}

#[test]
fn test_find_first_occurrence() {
    assert_eq!(find_first(b"abcabc", b"bc"), Some(1));
    assert_eq!(find_first(b"abcabc", b"ca"), Some(2));
    assert_eq!(find_first(b"abcabc", b"zz"), None);
    assert_eq!(find_first(b"abc", b""), Some(0));
    assert_eq!(find_first(b"", b"a"), None);
}

#[test]
fn test_decimal_rendering_of_largest_usize() {
    assert_eq!(decimal_string(usize::MAX), usize::MAX.to_string());
}
