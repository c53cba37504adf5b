//! The response checkers: pure classifiers from raw response bytes to a
//! [`Status`]. Each test case in the catalog names one of the closed set of
//! checkers here. The status line is parsed by `httparse`, behind a trusted
//! wrapper; everything after that parse is verified.

use vstd::prelude::*;
use vstd::utf8::{decode_utf8, encode_utf8, valid_utf8};

use crate::downstream::{Status, StatusView, TransportError};
use crate::text::{bytes_to_text, find_first, spec_find};

verus! {

/// What `httparse` concludes from a buffer of response bytes when given
/// sixteen header slots: a parse error, or the status code as far as the
/// parse got (`None` when the buffer ends before the code does). The outcome
/// is a function of the bytes alone.
pub uninterp spec fn response_code_outcome(bytes: Seq<u8>) -> Result<Option<u16>, ()>;

/// Relies on `httparse::Response::parse` (on a fresh `httparse::Response`
/// with sixteen empty header slots): parsing a response buffer either fails,
/// or fills in the status code once the status line has been read; for one
/// buffer the outcome is always the same.
#[verifier::external_body]
pub(crate) fn parse_response_code(response: &[u8]) -> (r: Result<Option<u16>, ()>)
    ensures
        r == response_code_outcome(response@),
{
    let mut headers = [httparse::EMPTY_HEADER; 16];
    let mut parsed = httparse::Response::new(&mut headers);
    match parsed.parse(response) {
        Ok(_) => Ok(parsed.code),
        Err(_) => Err(()),
    }
}

/// The closed set of response classifications the catalog uses.
#[derive(Debug, Clone, Copy, PartialEq, Eq, Structural)]
pub enum Check {
    /// The proxy must refuse to forward an ambiguous origin response and
    /// answer `502 Bad Gateway`.
    ExpectsBadGateway,
    /// The proxy must reject an ambiguous request itself and answer
    /// `400 Bad Request`.
    ExpectsBadRequest,
    /// The proxy must forward with chunked framing honoured, so the origin
    /// stub answers `200`; anything else carries the stub's diagnostic.
    ExpectsChunkedHonored,
}

/// The view of a checker's conclusion: the status, or the transport error.
pub open spec fn status_result_view(r: &Result<Status, TransportError>) -> Result<
    StatusView,
    TransportError,
> {
    match r {
        Ok(s) => Ok(s@),
        Err(e) => Err(*e),
    }
}

/// What a checker that expects one exact status code concludes from response
/// bytes: `Passed` iff the response parses with that code, `Failed` with the
/// given reason and the bytes received on any other code, and a transport
/// error when the bytes do not parse.
pub open spec fn spec_check_status_code(expected: u16, why: Seq<char>, bytes: Seq<u8>) -> Result<
    StatusView,
    TransportError,
> {
    match response_code_outcome(bytes) {
        Err(_) => Err(TransportError::MalformedResponse),
        Ok(code) => if code == Some(expected) {
            Ok(StatusView::Passed)
        } else {
            Ok(StatusView::Failed { why, bytes })
        },
    }
}

/// What the `502`-expecting checker concludes from response bytes.
pub open spec fn spec_check_bad_gateway(bytes: Seq<u8>) -> Result<StatusView, TransportError> {
    spec_check_status_code(502, "Proxy response status must be 502 Bad Gateway"@, bytes)
}

/// What the `400`-expecting checker concludes from response bytes.
pub open spec fn spec_check_bad_request(bytes: Seq<u8>) -> Result<StatusView, TransportError> {
    spec_check_status_code(400, "Proxy response status must be 400 Bad Request"@, bytes)
}

/// The byte offset of the origin stub's diagnostic in a response: where
/// `"Proxy must"` first occurs, or zero when it does not occur.
pub open spec fn spec_diagnostic_offset(bytes: Seq<u8>) -> nat {
    match spec_find(bytes, encode_utf8("Proxy must"@)) {
        Some(i) => i,
        None => 0,
    }
}

/// What the chunked-framing checker concludes from response bytes.
pub open spec fn spec_check_chunked(bytes: Seq<u8>) -> Result<StatusView, TransportError> {
    match response_code_outcome(bytes) {
        Err(_) => Err(TransportError::MalformedResponse),
        Ok(code) => if code == Some(200u16) {
            Ok(StatusView::Passed)
        } else if !valid_utf8(bytes) {
            Err(TransportError::NonTextResponse)
        } else {
            Ok(
                StatusView::FailedMessage {
                    idx: spec_diagnostic_offset(bytes),
                    text: decode_utf8(bytes),
                },
            )
        },
    }
}

/// What a checker concludes from response bytes.
pub open spec fn spec_run_check(check: Check, bytes: Seq<u8>) -> Result<
    StatusView,
    TransportError,
> {
    match check {
        Check::ExpectsBadGateway => spec_check_bad_gateway(bytes),
        Check::ExpectsBadRequest => spec_check_bad_request(bytes),
        Check::ExpectsChunkedHonored => spec_check_chunked(bytes),
    }
}

fn check_status_code(expected: u16, why: &'static str, response: Vec<u8>) -> (r: Result<
    Status,
    TransportError,
>)
    ensures
        status_result_view(&r) == spec_check_status_code(expected, why@, response@),
{
    match parse_response_code(response.as_slice()) {
        Err(()) => Err(TransportError::MalformedResponse),
        Ok(code) => {
            let matches_expected = match code {
                Some(c) => c == expected,
                None => false,
            };
            if matches_expected {
                Ok(Status::Passed)
            } else {
                Ok(Status::Failed { why, bytes: response })
            }
        },
    }
}

/// Classifies response bytes for a scenario whose conformant answer is
/// `502 Bad Gateway`: anything else the proxy says is a failure, reported
/// with the bytes received.
pub fn check_bad_gateway(response: Vec<u8>) -> (r: Result<Status, TransportError>)
    ensures
        status_result_view(&r) == spec_check_bad_gateway(response@),
{
    check_status_code(502, "Proxy response status must be 502 Bad Gateway", response)
}

/// Classifies response bytes for a scenario whose conformant answer is
/// `400 Bad Request`: anything else the proxy says is a failure, reported
/// with the bytes received.
pub fn check_bad_request(response: Vec<u8>) -> (r: Result<Status, TransportError>)
    ensures
        status_result_view(&r) == spec_check_bad_request(response@),
{
    check_status_code(400, "Proxy response status must be 400 Bad Request", response)
}

/// Classifies response bytes for the chunked-framing scenario: `200` means
/// the proxy forwarded correct framing; on anything else the origin stub's
/// diagnostic is located in the response text.
pub fn check_chunked(response: Vec<u8>) -> (r: Result<Status, TransportError>)
    ensures
        status_result_view(&r) == spec_check_chunked(response@),
{
    match parse_response_code(response.as_slice()) {
        Err(()) => Err(TransportError::MalformedResponse),
        Ok(code) => {
            let is_ok = match code {
                Some(c) => c == 200,
                None => false,
            };
            if is_ok {
                Ok(Status::Passed)
            } else {
                match bytes_to_text(response.as_slice()) {
                    None => Err(TransportError::NonTextResponse),
                    Some(text) => {
                        let marker = "Proxy must";
                        let idx = match find_first(response.as_slice(), marker.as_bytes()) {
                            Some(i) => i,
                            None => 0,
                        };
                        Ok(Status::FailedMessage { idx, text })
                    },
                }
            }
        },
    }
}

/// Runs the named checker on the response bytes.
pub fn run_check(check: Check, response: Vec<u8>) -> (r: Result<Status, TransportError>)
    ensures
        status_result_view(&r) == spec_run_check(check, response@),
{
    match check {
        Check::ExpectsBadGateway => check_bad_gateway(response),
        Check::ExpectsBadRequest => check_bad_request(response),
        Check::ExpectsChunkedHonored => check_chunked(response),
    }
}

/// Checkers are pure: any two runs of the same checker on the same byte
/// buffer conclude with the same conclusion, variant and payload alike.
pub proof fn lemma_check_deterministic(
    check: Check,
    bytes: Seq<u8>,
    r1: Result<StatusView, TransportError>,
    r2: Result<StatusView, TransportError>,
)
    requires
        r1 == spec_run_check(check, bytes),
        r2 == spec_run_check(check, bytes),
    ensures
        r1 == r2,
{
}

} // verus!
