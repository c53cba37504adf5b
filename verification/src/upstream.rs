//! The upstream half of the harness: the origin stub standing in for the
//! backend the proxy forwards to. It routes each received request by path and
//! answers with the crafted response its scenario calls for — including
//! responses whose framing headers are deliberately wrong.

pub mod inbound;

pub use self::inbound::{InboundRequest, InboundRequestView};

use vstd::prelude::*;
use vstd::utf8::encode_utf8;

use crate::downstream::check::{parse_response_code, response_code_outcome};
use crate::downstream::request::{spec_encode_request, Request, RequestView, Verb};
use crate::downstream::TransportError;
use crate::text::{decimal_string, spec_decimal};
use crate::upstream::inbound::{spec_has_header, spec_parse_request, parse_inbound};

verus! {

/// A response the origin stub sends: status code and reason, header pairs in
/// order (duplicates permitted — several scenarios depend on them), and the
/// body. The `Content-Length` lines are whatever the route says, never
/// computed from the body behind the route's back.
pub struct OriginResponse {
    pub code: u16,
    pub reason: String,
    pub headers: Vec<(String, String)>,
    pub body: String,
}

/// The mathematical content of an [`OriginResponse`].
pub struct OriginResponseView {
    pub code: u16,
    pub reason: Seq<char>,
    pub headers: Seq<(Seq<char>, Seq<char>)>,
    pub body: Seq<char>,
}

impl View for OriginResponse {
    type V = OriginResponseView;

    open spec fn view(&self) -> OriginResponseView {
        OriginResponseView {
            code: self.code,
            reason: self.reason@,
            headers: self.headers.deep_view(),
            body: self.body@,
        }
    }
}

/// Every header pair as one `name: value` line followed by a CRLF, in order.
pub open spec fn spec_header_pairs_block(headers: Seq<(Seq<char>, Seq<char>)>) -> Seq<char>
    decreases headers.len(),
{
    if headers.len() == 0 {
        Seq::empty()
    } else {
        headers[0].0 + ": "@ + headers[0].1 + "\r\n"@ + spec_header_pairs_block(
            headers.drop_first(),
        )
    }
}

proof fn lemma_header_pairs_block_push(headers: Seq<(Seq<char>, Seq<char>)>, h: (Seq<char>, Seq<char>))
    ensures
        spec_header_pairs_block(headers.push(h)) == spec_header_pairs_block(headers) + h.0 + ": "@
            + h.1 + "\r\n"@,
    decreases headers.len(),
{
    if headers.len() == 0 {
        let p = headers.push(h);
        assert(p.drop_first() =~= Seq::<(Seq<char>, Seq<char>)>::empty());
        assert(spec_header_pairs_block(p.drop_first()) == Seq::<char>::empty());
        assert(spec_header_pairs_block(p) =~= spec_header_pairs_block(headers) + h.0 + ": "@ + h.1
            + "\r\n"@);
    } else {
        assert(headers.push(h).drop_first() =~= headers.drop_first().push(h));
        lemma_header_pairs_block_push(headers.drop_first(), h);
        assert(spec_header_pairs_block(headers.push(h)) =~= spec_header_pairs_block(headers) + h.0
            + ": "@ + h.1 + "\r\n"@);
    }
}

/// The exact text an origin response encodes to: the status line, every
/// header pair in order, one blank line, and the body verbatim.
pub open spec fn spec_encode_response(r: OriginResponseView) -> Seq<char> {
    "HTTP/1.1 "@ + spec_decimal(r.code as nat) + " "@ + r.reason + "\r\n"@
        + spec_header_pairs_block(r.headers) + "\r\n"@ + r.body
}

/// Encodes an origin response to its exact wire text.
pub fn encode_response(response: &OriginResponse) -> (r: String)
    ensures
        r@ == spec_encode_response(response@),
{
    let mut s = String::new();
    s.append("HTTP/1.1 ");
    let code_text = decimal_string(response.code as usize);
    s.append(code_text.as_str());
    s.append(" ");
    s.append(response.reason.as_str());
    s.append("\r\n");
    let ghost head: Seq<char> = s@;
    let n = response.headers.len();
    let mut i: usize = 0;
    while i < n
        invariant
            i <= n,
            n == response.headers@.len(),
            s@ == head + spec_header_pairs_block(response@.headers.take(i as int)),
        decreases n - i,
    {
        s.append(response.headers[i].0.as_str());
        s.append(": ");
        s.append(response.headers[i].1.as_str());
        s.append("\r\n");
        proof {
            assert(response@.headers.take(i as int).push(response@.headers[i as int])
                =~= response@.headers.take(i as int + 1));
            lemma_header_pairs_block_push(
                response@.headers.take(i as int),
                response@.headers[i as int],
            );
            assert(response.headers@[i as int].deep_view() == response@.headers[i as int]);
        }
        i = i + 1;
    }
    proof {
        assert(response@.headers.take(n as int) =~= response@.headers);
    }
    s.append("\r\n");
    s.append(response.body.as_str());
    proof {
        assert(s@ =~= spec_encode_response(response@));
    }
    s
}

/// The body the `/test1` route returns: thirty bytes and a NUL — a length
/// matching neither of the two `Content-Length` values it declares.
pub open spec fn spec_test1_body() -> Seq<char> {
    "aaaaaaaaaaaaaaaaaaaaaaaaaaaaaa\0"@
}

/// The response for `/test1`: status `200` with two conflicting
/// `Content-Length` lines, `45` and `20`, and a body whose true length
/// matches neither.
pub open spec fn spec_route_test1() -> OriginResponseView {
    OriginResponseView {
        code: 200,
        reason: "OK"@,
        headers: seq![
            ("Content-Length"@, "45"@),
            ("Content-Length"@, "20"@),
        ],
        body: spec_test1_body(),
    }
}

/// A plainly framed response: one `Content-Length` line carrying the body's
/// true byte length.
pub open spec fn spec_plain_response(code: u16, reason: Seq<char>, body: Seq<char>) -> OriginResponseView {
    OriginResponseView {
        code,
        reason,
        headers: seq![("Content-Length"@, spec_decimal(encode_utf8(body).len() as nat))],
        body,
    }
}

/// The diagnostic body sent when the proxy forwarded a wrongly framed body:
/// the received length against the expected fifty bytes.
pub open spec fn spec_wrong_length_body(received: nat) -> Seq<char> {
    "Proxy must obey chunked encoding rather than Content-Length header.\nMessage body was the incorrect length ("@
        + spec_decimal(received) + " instead of 50)"@
}

/// What the origin stub answers for a request: the route table.
///
/// `/test1` injects the duplicate-`Content-Length` response. `/test2` should
/// never be reached — a proxy that got the conflicting request right rejects
/// it — so any request here is itself evidence of mis-forwarding, answered
/// with a marker body. `/chunked_and_content_length1` judges what the proxy
/// forwarded: `400` with a diagnostic when a `Content-Length` header is
/// still present, `400` with the lengths when the body is not the full
/// fifty bytes of the chunked payload, `200` otherwise. Unknown paths get
/// `404`.
pub open spec fn spec_route_upstream(req: InboundRequestView) -> OriginResponseView {
    if req.path == "/test1"@ {
        spec_route_test1()
    } else if req.path == "/test2"@ {
        spec_plain_response(200, "OK"@, "This shouldn't have happened!"@)
    } else if req.path == "/chunked_and_content_length1"@ {
        if spec_has_header(req, "Content-Length"@) {
            spec_plain_response(400, "Bad Request"@, "Proxy must remove Content-Length header!"@)
        } else if req.body.len() != 50 {
            spec_plain_response(400, "Bad Request"@, spec_wrong_length_body(req.body.len()))
        } else {
            spec_plain_response(200, "OK"@, Seq::<char>::empty())
        }
    } else {
        spec_plain_response(404, "Not Found"@, Seq::<char>::empty())
    }
}

/// The origin stub itself.
pub struct Upstream;

fn plain_response(code: u16, reason: &str, body: String) -> (r: OriginResponse)
    ensures
        r@ == spec_plain_response(code, reason@, body@),
{
    let body_bytes = body.as_str().as_bytes();
    let length = decimal_string(body_bytes.len());
    proof {
        assert(body_bytes@ == encode_utf8(body@));
    }
    let mut headers: Vec<(String, String)> = Vec::new();
    headers.push((String::from_str("Content-Length"), length));
    let r = OriginResponse { code, reason: String::from_str(reason), headers, body };
    proof {
        assert(r@.headers =~= seq![
            ("Content-Length"@, spec_decimal(encode_utf8(body@).len() as nat)),
        ]);
    }
    r
}

impl Upstream {
    /// Answers one received request per the stub's route table.
    pub fn call(&self, request: &InboundRequest) -> (r: OriginResponse)
        ensures
            r@ == spec_route_upstream(request@),
    {
        if request.path == String::from_str("/test1") {
            let mut headers: Vec<(String, String)> = Vec::new();
            headers.push((String::from_str("Content-Length"), String::from_str("45")));
            headers.push((String::from_str("Content-Length"), String::from_str("20")));
            let r = OriginResponse {
                code: 200,
                reason: String::from_str("OK"),
                headers,
                body: String::from_str("aaaaaaaaaaaaaaaaaaaaaaaaaaaaaa\0"),
            };
            proof {
                assert(r@.headers =~= seq![
                    ("Content-Length"@, "45"@),
                    ("Content-Length"@, "20"@),
                ]);
            }
            r
        } else if request.path == String::from_str("/test2") {
            plain_response(200, "OK", String::from_str("This shouldn't have happened!"))
        } else if request.path == String::from_str("/chunked_and_content_length1") {
            if request.has_header("Content-Length") {
                plain_response(
                    400,
                    "Bad Request",
                    String::from_str("Proxy must remove Content-Length header!"),
                )
            } else if request.body.len() != 50 {
                let mut body = String::from_str(
                    "Proxy must obey chunked encoding rather than Content-Length header.\nMessage body was the incorrect length (",
                );
                let received = decimal_string(request.body.len());
                body.append(received.as_str());
                body.append(" instead of 50)");
                proof {
                    assert(body@ =~= spec_wrong_length_body(request@.body.len() as nat));
                }
                plain_response(400, "Bad Request", body)
            } else {
                plain_response(200, "OK", String::new())
            }
        } else {
            plain_response(404, "Not Found", String::new())
        }
    }

    /// The stub's whole treatment of one connection's bytes: parse the
    /// request, route it, and encode the answer. `None` when the bytes are
    /// not a request the stub can read; the connection is then just closed.
    pub fn respond(&self, input: &[u8]) -> (r: Option<String>)
        ensures
            match spec_parse_request(input@) {
                None => r is None,
                Some(req) => match r {
                    Some(s) => s@ == spec_encode_response(spec_route_upstream(req)),
                    None => false,
                },
            },
    {
        match parse_inbound(input) {
            None => None,
            Some(request) => {
                let response = self.call(&request);
                Some(encode_response(&response))
            },
        }
    }
}

/// The conclusion of one scenario on the upstream side: conformant, or failed
/// with the reason and the response received, kept for diagnosis.
#[derive(Debug, PartialEq, Eq)]
pub enum Status<'a> {
    Passed,
    Failed(&'a str, Vec<u8>),
}

/// The mathematical content of a [`Status`].
pub enum StatusView {
    Passed,
    Failed(Seq<char>, Seq<u8>),
}

impl<'a> View for Status<'a> {
    type V = StatusView;

    open spec fn view(&self) -> StatusView {
        match self {
            Status::Passed => StatusView::Passed,
            Status::Failed(why, bytes) => StatusView::Failed(why@, bytes@),
        }
    }
}

/// The view of a scenario's conclusion: the status, or the transport error.
pub open spec fn status_result_view(r: &Result<Status<'static>, TransportError>) -> Result<
    StatusView,
    TransportError,
> {
    match r {
        Ok(s) => Ok(s@),
        Err(e) => Err(*e),
    }
}

/// One scenario written as a type of its own: the request it sends for a
/// given upstream target, and the check on the raw response bytes. The two
/// spec functions say exactly what the methods compute.
pub trait Test {
    /// What the request for a target reads, as text.
    spec fn spec_request(uri: Seq<char>) -> Seq<char>;

    /// What the check concludes from response bytes.
    spec fn spec_check(bytes: Seq<u8>) -> Result<StatusView, TransportError>;

    /// Returns the HTTP request that this test will send to the proxy.
    fn request(uri: &str) -> (r: String)
        ensures
            r@ == Self::spec_request(uri@),
    ;

    /// Check whether the HTTP response returned by the proxy is correct.
    fn check(response: Vec<u8>) -> (r: Result<Status<'static>, TransportError>)
        ensures
            status_result_view(&r) == Self::spec_check(response@),
    ;

    /// What the test is called.
    spec fn spec_name() -> Seq<char>;

    /// Returns the name of this test.
    fn name() -> (r: &'static str)
        ensures
            r@ == Self::spec_name(),
    ;
}

/// The response-side duplicate `Content-Length` scenario, as a [`Test`].
pub struct DuplicateContentLength1;

impl Test for DuplicateContentLength1 {
    open spec fn spec_request(uri: Seq<char>) -> Seq<char> {
        spec_encode_request(
            RequestView {
                verb: Verb::Get,
                version: "HTTP/1.1"@,
                host: uri,
                uri: "/test1"@,
                headers: seq!["Connection: close"@],
                body: None,
            },
        )
    }

    open spec fn spec_check(bytes: Seq<u8>) -> Result<StatusView, TransportError> {
        match response_code_outcome(bytes) {
            Err(_) => Err(TransportError::MalformedResponse),
            Ok(code) => if code == Some(502u16) {
                Ok(StatusView::Passed)
            } else {
                Ok(StatusView::Failed("Proxy response status must be 502 Bad Gateway"@, bytes))
            },
        }
    }

    open spec fn spec_name() -> Seq<char> {
        "Bad Framing: duplicate Content-Length headers returned by server"@
    }

    fn request(uri: &str) -> (r: String) {
        let mut request = Request::new();
        request.with_path("/test1");
        request.with_host(uri);
        request.with_header("Connection: close");
        proof {
            assert(request@.headers =~= seq!["Connection: close"@]);
        }
        request.build()
    }

    fn check(response: Vec<u8>) -> (r: Result<Status<'static>, TransportError>) {
        match parse_response_code(response.as_slice()) {
            Err(()) => Err(TransportError::MalformedResponse),
            Ok(code) => {
                let is_bad_gateway = match code {
                    Some(c) => c == 502,
                    None => false,
                };
                if is_bad_gateway {
                    Ok(Status::Passed)
                } else {
                    Ok(Status::Failed("Proxy response status must be 502 Bad Gateway", response))
                }
            },
        }
    }

    fn name() -> (r: &'static str) {
        "Bad Framing: duplicate Content-Length headers returned by server"
    }
}

} // verus!
