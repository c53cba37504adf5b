//! The downstream half of the harness: the side that talks to the proxy under
//! test. It builds the raw requests, classifies the proxy's responses, and
//! aggregates the per-test results.

pub mod check;
pub mod request;

pub use self::request::{Request, RequestView, Verb};

use vstd::prelude::*;

use crate::downstream::check::{run_check, spec_run_check, Check};
use crate::downstream::request::spec_encode_request;
use crate::upstream::inbound::{InboundRequest, InboundRequestView};
use crate::upstream::{OriginResponse, OriginResponseView};

verus! {

/// How one test case concluded, as judged by its checker: the proxy behaved,
/// or it did not. The failing variants keep the raw response so a human can
/// inspect what the proxy actually sent.
#[derive(Debug, PartialEq, Eq)]
pub enum Status {
    /// The proxy's response is the conformant one for the scenario.
    Passed,
    /// The response is non-conformant; `bytes` is the response received.
    Failed { why: &'static str, bytes: Vec<u8> },
    /// The response is non-conformant and carries a diagnostic written by the
    /// origin stub: `idx` is the byte offset of that diagnostic in `text`,
    /// the full response as text (zero when no diagnostic was found).
    FailedMessage { idx: usize, text: String },
}

/// The mathematical content of a [`Status`].
pub enum StatusView {
    Passed,
    Failed { why: Seq<char>, bytes: Seq<u8> },
    FailedMessage { idx: nat, text: Seq<char> },
}

impl View for Status {
    type V = StatusView;

    open spec fn view(&self) -> StatusView {
        match self {
            Status::Passed => StatusView::Passed,
            Status::Failed { why, bytes } => StatusView::Failed { why: why@, bytes: bytes@ },
            Status::FailedMessage { idx, text } => StatusView::FailedMessage {
                idx: *idx as nat,
                text: text@,
            },
        }
    }
}

/// A failure of the harness itself: the test could not be run to completion.
/// Distinct from [`Status::Failed`], which reports on the proxy.
#[derive(Debug, Clone, Copy, PartialEq, Eq, Structural)]
pub enum TransportError {
    /// No connection to the proxy could be opened.
    Connect,
    /// The request could not be written in full.
    Write,
    /// The response could not be read to the end of the connection.
    Read,
    /// The response bytes could not be parsed as an HTTP response.
    MalformedResponse,
    /// The response needed to be read as text but is not valid UTF-8.
    NonTextResponse,
}

/// The outcome of one test case: its identity together with the checker's
/// conclusion, or the transport error that kept the test from running.
#[derive(Debug, PartialEq, Eq)]
pub struct TestResult {
    pub name: &'static str,
    pub description: &'static str,
    pub status: Result<Status, TransportError>,
}

/// The mathematical content of a [`TestResult`].
pub struct TestResultView {
    pub name: Seq<char>,
    pub description: Seq<char>,
    pub status: Result<StatusView, TransportError>,
}

impl View for TestResult {
    type V = TestResultView;

    open spec fn view(&self) -> TestResultView {
        TestResultView {
            name: self.name@,
            description: self.description@,
            status: match &self.status {
                Ok(s) => Ok(s@),
                Err(e) => Err(*e),
            },
        }
    }
}

/// The result counts as a success.
pub open spec fn spec_is_passed(r: TestResultView) -> bool {
    r.status == Ok::<StatusView, TransportError>(StatusView::Passed)
}

impl TestResult {
    /// Whether this result counts as a success: the test ran and the checker
    /// returned [`Status::Passed`].
    pub fn is_passed(&self) -> (r: bool)
        ensures
            r == spec_is_passed(self@),
    {
        match &self.status {
            Ok(Status::Passed) => true,
            _ => false,
        }
    }
}

/// One catalog entry: a named scenario pairing a request template with the
/// checker that classifies the proxy's response to it.
pub struct Test {
    /// the name of the test
    pub name: &'static str,
    /// a longer string describing the test
    pub description: &'static str,
    /// the HTTP request this test sends to the proxy, before the live host
    /// is substituted
    pub request: Request,
    /// the checker that decides whether the proxy's response is conformant
    pub check: Check,
}

/// The mathematical content of a [`Test`].
pub struct TestView {
    pub name: Seq<char>,
    pub description: Seq<char>,
    pub request: RequestView,
    pub check: Check,
}

impl View for Test {
    type V = TestView;

    open spec fn view(&self) -> TestView {
        TestView {
            name: self.name@,
            description: self.description@,
            request: self.request@,
            check: self.check,
        }
    }
}

/// The linear pipeline a test case walks: connect to the proxy, send the
/// encoded request, read the response to the end of the connection. The next
/// move after `Reading` is always classification, so three phases suffice.
#[derive(Debug, Clone, Copy, PartialEq, Eq, Structural)]
pub enum Phase {
    Connecting,
    Sending,
    Reading,
}

/// What the surrounding I/O loop reports back for the phase it just ran:
/// the phase's operation succeeded, the whole response was collected, or the
/// transport gave out.
#[derive(Debug)]
pub enum Event {
    Succeeded,
    Received(Vec<u8>),
    TransportFailed,
}

/// The mathematical content of an [`Event`].
pub enum EventView {
    Succeeded,
    Received(Seq<u8>),
    TransportFailed,
}

impl View for Event {
    type V = EventView;

    open spec fn view(&self) -> EventView {
        match self {
            Event::Succeeded => EventView::Succeeded,
            Event::Received(bytes) => EventView::Received(bytes@),
            Event::TransportFailed => EventView::TransportFailed,
        }
    }
}

/// What [`Test::advance`] hands back: the next phase to run, or the finished
/// result of the test.
#[derive(Debug)]
pub enum Advance {
    Continue(Phase),
    Finished(TestResult),
}

/// The mathematical content of an [`Advance`].
pub enum AdvanceView {
    Continue(Phase),
    Finished(TestResultView),
}

impl View for Advance {
    type V = AdvanceView;

    open spec fn view(&self) -> AdvanceView {
        match self {
            Advance::Continue(p) => AdvanceView::Continue(*p),
            Advance::Finished(r) => AdvanceView::Finished(r@),
        }
    }
}

/// The transport error that a failure during the given phase amounts to.
pub open spec fn spec_error_of_phase(phase: Phase) -> TransportError {
    match phase {
        Phase::Connecting => TransportError::Connect,
        Phase::Sending => TransportError::Write,
        Phase::Reading => TransportError::Read,
    }
}

/// The event is one the given phase can report: operations succeed in the
/// two phases before the read, a response arrives only while reading, and
/// the transport can fail anywhere.
pub open spec fn spec_event_fits(phase: Phase, event: EventView) -> bool {
    match event {
        EventView::Succeeded => phase is Connecting || phase is Sending,
        EventView::Received(_) => phase is Reading,
        EventView::TransportFailed => true,
    }
}

/// The decision [`Test::advance`] takes for a phase and its event.
pub open spec fn spec_advance(t: TestView, phase: Phase, event: EventView) -> AdvanceView {
    match event {
        EventView::Succeeded => AdvanceView::Continue(
            if phase is Connecting {
                Phase::Sending
            } else {
                Phase::Reading
            },
        ),
        EventView::Received(bytes) => AdvanceView::Finished(
            TestResultView { name: t.name, description: t.description, status: spec_run_check(t.check, bytes) },
        ),
        EventView::TransportFailed => AdvanceView::Finished(
            TestResultView {
                name: t.name,
                description: t.description,
                status: Err(spec_error_of_phase(phase)),
            },
        ),
    }
}

impl Test {
    /// The exact bytes this test sends, with the live host substituted into
    /// the template.
    pub fn request_string(&self, host: &str) -> (r: String)
        ensures
            r@ == spec_encode_request(RequestView { host: host@, ..self@.request }),
    {
        let specialised = self.request.specialize(host);
        specialised.build()
    }

    /// Takes the one decision the pipeline owes the phase just run: carry on
    /// to the next phase, report the transport error the phase's failure
    /// amounts to, or classify the collected response with this test's
    /// checker. The surrounding I/O loop performs the phases' operations;
    /// every decision between them is taken here.
    pub fn advance(&self, phase: Phase, event: Event) -> (r: Advance)
        requires
            spec_event_fits(phase, event@),
        ensures
            r@ == spec_advance(self@, phase, event@),
    {
        match event {
            Event::Succeeded => {
                match phase {
                    Phase::Connecting => Advance::Continue(Phase::Sending),
                    _ => Advance::Continue(Phase::Reading),
                }
            },
            Event::Received(bytes) => Advance::Finished(
                TestResult {
                    name: self.name,
                    description: self.description,
                    status: run_check(self.check, bytes),
                },
            ),
            Event::TransportFailed => {
                let error = match phase {
                    Phase::Connecting => TransportError::Connect,
                    Phase::Sending => TransportError::Write,
                    Phase::Reading => TransportError::Read,
                };
                Advance::Finished(
                    TestResult { name: self.name, description: self.description, status: Err(error) },
                )
            },
        }
    }
}

/// The 50-byte body the request-side scenarios send.
pub open spec fn spec_scenario_body() -> Seq<char> {
    "aaaaabbbbbaaaaabbbbbaaaaabbbbbaaaaabbbbbaaaaabbbbb"@
}

/// The scenario that feeds the proxy an origin response with two conflicting
/// `Content-Length` headers.
pub open spec fn spec_conflicting_content_length_resp() -> TestView {
    TestView {
        name: "Bad Framing 1"@,
        description: "Conflicting Content-Length headers in response"@,
        request: RequestView {
            verb: Verb::Get,
            version: "HTTP/1.1"@,
            host: Seq::<char>::empty(),
            uri: "/test1"@,
            headers: seq!["Connection: close"@],
            body: None,
        },
        check: Check::ExpectsBadGateway,
    }
}

/// The scenario that sends the proxy a request with two conflicting
/// `Content-Length` headers: the proxy must reject it as a client error.
pub open spec fn spec_conflicting_content_length_req() -> TestView {
    TestView {
        name: "Bad Framing 2"@,
        description: "Conflicting Content-Length headers in request"@,
        request: RequestView {
            verb: Verb::Post,
            version: "HTTP/1.1"@,
            host: Seq::<char>::empty(),
            uri: "/test2"@,
            headers: seq!["Content-Length: 45"@, "Content-Length: 20"@],
            body: Some(spec_scenario_body()),
        },
        check: Check::ExpectsBadRequest,
    }
}

/// The scenario that sends the proxy a request carrying both `Content-Length`
/// and `Transfer-Encoding: chunked`.
pub open spec fn spec_conflicting_transfer_encoding_req() -> TestView {
    TestView {
        name: "Bad Framing 3"@,
        description: "Conflicting `Content-Length` and `Transfer-Encoding: Chunked` headers in request."@,
        request: RequestView {
            verb: Verb::Post,
            version: "HTTP/1.1"@,
            host: Seq::<char>::empty(),
            uri: "/chunked_and_content_length1"@,
            headers: seq!["Content-Length: 20"@, "Transfer-Encoding: chunked"@],
            body: Some(spec_scenario_body()),
        },
        check: Check::ExpectsChunkedHonored,
    }
}

fn scenario_request(verb: Verb, uri: &str, body: Option<String>) -> (r: Request)
    ensures
        r@ == (RequestView {
            verb,
            version: "HTTP/1.1"@,
            host: Seq::<char>::empty(),
            uri: uri@,
            headers: Seq::<Seq<char>>::empty(),
            body: match body {
                Some(b) => Some(b@),
                None => None,
            },
        }),
{
    let r = Request {
        verb,
        version: String::from_str("HTTP/1.1"),
        host: String::new(),
        uri: String::from_str(uri),
        headers: Vec::new(),
        body,
    };
    proof {
        assert(r@.headers =~= Seq::<Seq<char>>::empty());
    }
    r
}

/// The catalog entry for duplicate `Content-Length` headers in a response.
pub fn conflicting_content_length_resp() -> (t: Test)
    ensures
        t@ == spec_conflicting_content_length_resp(),
{
    let mut request = scenario_request(Verb::Get, "/test1", None);
    request.with_header("Connection: close");
    proof {
        assert(request@.headers =~= seq!["Connection: close"@]);
    }
    Test {
        name: "Bad Framing 1",
        description: "Conflicting Content-Length headers in response",
        request,
        check: Check::ExpectsBadGateway,
    }
}

/// The catalog entry for duplicate `Content-Length` headers in a request.
pub fn conflicting_content_length_req() -> (t: Test)
    ensures
        t@ == spec_conflicting_content_length_req(),
{
    let body = String::from_str("aaaaabbbbbaaaaabbbbbaaaaabbbbbaaaaabbbbbaaaaabbbbb");
    let mut request = scenario_request(Verb::Post, "/test2", Some(body));
    request.with_header("Content-Length: 45");
    request.with_header("Content-Length: 20");
    proof {
        assert(request@.headers =~= seq!["Content-Length: 45"@, "Content-Length: 20"@]);
    }
    Test {
        name: "Bad Framing 2",
        description: "Conflicting Content-Length headers in request",
        request,
        check: Check::ExpectsBadRequest,
    }
}

/// The catalog entry for a request that carries both `Content-Length` and
/// `Transfer-Encoding: chunked`.
pub fn conflicting_transfer_encoding_req() -> (t: Test)
    ensures
        t@ == spec_conflicting_transfer_encoding_req(),
{
    let body = String::from_str("aaaaabbbbbaaaaabbbbbaaaaabbbbbaaaaabbbbbaaaaabbbbb");
    let mut request = scenario_request(Verb::Post, "/chunked_and_content_length1", Some(body));
    request.with_header("Content-Length: 20");
    request.with_header("Transfer-Encoding: chunked");
    proof {
        assert(request@.headers =~= seq!["Content-Length: 20"@, "Transfer-Encoding: chunked"@]);
    }
    Test {
        name: "Bad Framing 3",
        description: "Conflicting `Content-Length` and `Transfer-Encoding: Chunked` headers in request.",
        request,
        check: Check::ExpectsChunkedHonored,
    }
}

/// The full test catalog, in its fixed order.
pub fn catalog() -> (r: Vec<Test>)
    ensures
        r@.len() == 3,
        r@[0]@ == spec_conflicting_content_length_resp(),
        r@[1]@ == spec_conflicting_content_length_req(),
        r@[2]@ == spec_conflicting_transfer_encoding_req(),
{
    let mut r: Vec<Test> = Vec::new();
    r.push(conflicting_content_length_resp());
    r.push(conflicting_content_length_req());
    r.push(conflicting_transfer_encoding_req());
    r
}

impl DeepView for TestResult {
    type V = TestResultView;

    open spec fn deep_view(&self) -> TestResultView {
        self@
    }
}

/// The result is a failed assertion: the test ran, and the proxy's response
/// was non-conformant.
pub open spec fn spec_is_failed(r: TestResultView) -> bool {
    r.status is Ok && !spec_is_passed(r)
}

/// The result is a transport error: the test could not be run.
pub open spec fn spec_is_errored(r: TestResultView) -> bool {
    r.status is Err
}

/// How many results count as successes.
pub open spec fn spec_count_passed(s: Seq<TestResultView>) -> nat
    decreases s.len(),
{
    if s.len() == 0 {
        0
    } else {
        spec_count_passed(s.drop_last()) + (if spec_is_passed(s.last()) {
            1nat
        } else {
            0nat
        })
    }
}

/// How many results count as failed assertions.
pub open spec fn spec_count_failed(s: Seq<TestResultView>) -> nat
    decreases s.len(),
{
    if s.len() == 0 {
        0
    } else {
        spec_count_failed(s.drop_last()) + (if spec_is_failed(s.last()) {
            1nat
        } else {
            0nat
        })
    }
}

/// How many results count as transport errors.
pub open spec fn spec_count_errored(s: Seq<TestResultView>) -> nat
    decreases s.len(),
{
    if s.len() == 0 {
        0
    } else {
        spec_count_errored(s.drop_last()) + (if spec_is_errored(s.last()) {
            1nat
        } else {
            0nat
        })
    }
}

/// The counts a run of the catalog is summarised by: conformant responses,
/// failed assertions, and tests the harness could not run. The three kinds
/// partition the results.
#[derive(Debug, Clone, Copy, PartialEq, Eq, Structural)]
pub struct Summary {
    pub passed: usize,
    pub failed: usize,
    pub errored: usize,
}

/// Counts the successes, the failed assertions, and the transport errors in
/// a run's results. Every result falls in exactly one of the three counts.
pub fn summarize(results: &Vec<TestResult>) -> (s: Summary)
    ensures
        s.passed == spec_count_passed(results.deep_view()),
        s.failed == spec_count_failed(results.deep_view()),
        s.errored == spec_count_errored(results.deep_view()),
        s.passed + s.failed + s.errored == results@.len(),
{
    let n = results.len();
    let mut passed: usize = 0;
    let mut failed: usize = 0;
    let mut errored: usize = 0;
    let mut i: usize = 0;
    while i < n
        invariant
            i <= n,
            n == results@.len(),
            passed == spec_count_passed(results.deep_view().take(i as int)),
            failed == spec_count_failed(results.deep_view().take(i as int)),
            errored == spec_count_errored(results.deep_view().take(i as int)),
            passed + failed + errored == i,
        decreases n - i,
    {
        let result = &results[i];
        if result.is_passed() {
            passed = passed + 1;
        } else {
            match &result.status {
                Ok(_) => {
                    failed = failed + 1;
                },
                Err(_) => {
                    errored = errored + 1;
                },
            }
        }
        proof {
            let views = results.deep_view();
            assert(views.take(i as int + 1).drop_last() =~= views.take(i as int));
            assert(views.take(i as int + 1).last() == views[i as int]);
        }
        i = i + 1;
    }
    proof {
        assert(results.deep_view().take(n as int) =~= results.deep_view());
    }
    Summary { passed, failed, errored }
}

/// The results that count as successes, in order.
pub open spec fn spec_passed_results(s: Seq<TestResultView>) -> Seq<TestResultView> {
    s.filter(|t: TestResultView| spec_is_passed(t))
}

/// The results that do not count as successes, in order: failed assertions
/// and transport errors alike.
pub open spec fn spec_unpassed_results(s: Seq<TestResultView>) -> Seq<TestResultView> {
    s.filter(|t: TestResultView| !spec_is_passed(t))
}

/// Splits a run's results into the successes and the rest, keeping the order
/// within each part.
pub fn partition_results(results: Vec<TestResult>) -> (r: (Vec<TestResult>, Vec<TestResult>))
    ensures
        r.0.deep_view() == spec_passed_results(results.deep_view()),
        r.1.deep_view() == spec_unpassed_results(results.deep_view()),
{
    let mut successes: Vec<TestResult> = Vec::new();
    let mut failures: Vec<TestResult> = Vec::new();
    let n = results.len();
    let ghost all = results.deep_view();
    let mut rest = results;
    let mut i: usize = 0;
    proof {
        reveal(Seq::filter);
        assert(all.take(0).filter(|t: TestResultView| spec_is_passed(t)) =~= Seq::<
            TestResultView,
        >::empty());
        assert(all.take(0).filter(|t: TestResultView| !spec_is_passed(t)) =~= Seq::<
            TestResultView,
        >::empty());
    }
    while i < n
        invariant
            i <= n,
            n == all.len(),
            rest@.len() == n - i,
            rest.deep_view() == all.skip(i as int),
            successes.deep_view() == spec_passed_results(all.take(i as int)),
            failures.deep_view() == spec_unpassed_results(all.take(i as int)),
        decreases n - i,
    {
        let result = rest.remove(0);
        proof {
            reveal(Seq::filter);
            assert(result.deep_view() == all.skip(i as int)[0]);
            assert(all.skip(i as int)[0] == all[i as int]);
            assert(all.skip(i as int).remove(0) =~= all.skip(i as int + 1));
            assert(all.take(i as int + 1).drop_last() =~= all.take(i as int));
            assert(all.take(i as int + 1).last() == all[i as int]);
        }
        if result.is_passed() {
            successes.push(result);
            proof {
                assert(successes.deep_view() =~= spec_passed_results(all.take(i as int + 1)));
                assert(failures.deep_view() =~= spec_unpassed_results(all.take(i as int + 1)));
            }
        } else {
            failures.push(result);
            proof {
                assert(successes.deep_view() =~= spec_passed_results(all.take(i as int + 1)));
                assert(failures.deep_view() =~= spec_unpassed_results(all.take(i as int + 1)));
            }
        }
        i = i + 1;
    }
    proof {
        assert(all.take(n as int) =~= all);
    }
    (successes, failures)
}

/// The route table of the single-scenario origin service: only `/test1`,
/// with the duplicate-`Content-Length` response over a twenty-byte body;
/// anything else gets `404`.
pub open spec fn spec_route_downstream(req: InboundRequestView) -> OriginResponseView {
    if req.path == "/test1"@ {
        OriginResponseView {
            code: 200,
            reason: "OK"@,
            headers: seq![
                ("Content-Length"@, "45"@),
                ("Content-Length"@, "20"@),
            ],
            body: "aaaaaaaaaaaaaaaaaaaa"@,
        }
    } else {
        OriginResponseView {
            code: 404,
            reason: "Not Found"@,
            headers: Seq::<(Seq<char>, Seq<char>)>::empty(),
            body: Seq::<char>::empty(),
        }
    }
}

/// A minimal origin service that carries only the duplicate-`Content-Length`
/// scenario: it answers `/test1` with conflicting framing and everything
/// else with `404 Not Found`.
pub struct Downstream;

impl Downstream {
    /// Answers one received request per this service's single-route table.
    pub fn call(&self, request: &InboundRequest) -> (r: OriginResponse)
        ensures
            r@ == spec_route_downstream(request@),
    {
        if request.path == String::from_str("/test1") {
            let mut headers: Vec<(String, String)> = Vec::new();
            headers.push((String::from_str("Content-Length"), String::from_str("45")));
            headers.push((String::from_str("Content-Length"), String::from_str("20")));
            let r = OriginResponse {
                code: 200,
                reason: String::from_str("OK"),
                headers,
                body: String::from_str("aaaaaaaaaaaaaaaaaaaa"),
            };
            proof {
                assert(r@.headers =~= seq![
                    ("Content-Length"@, "45"@),
                    ("Content-Length"@, "20"@),
                ]);
            }
            r
        } else {
            let r = OriginResponse {
                code: 404,
                reason: String::from_str("Not Found"),
                headers: Vec::new(),
                body: String::new(),
            };
            proof {
                assert(r@.headers =~= Seq::<(Seq<char>, Seq<char>)>::empty());
            }
            r
        }
    }
}

/// Running the catalog twice against a proxy that behaves the same — each
/// test's exchange ends in the same phase with the same event — classifies
/// every test identically: the pipeline adds no nondeterminism of its own.
pub proof fn lemma_runs_identical(
    tests: Seq<TestView>,
    phases: Seq<Phase>,
    events: Seq<EventView>,
    r1: Seq<TestResultView>,
    r2: Seq<TestResultView>,
)
    requires
        r1.len() == tests.len(),
        r2.len() == tests.len(),
        phases.len() == tests.len(),
        events.len() == tests.len(),
        forall|i: int|
            0 <= i < tests.len() ==> AdvanceView::Finished(#[trigger] r1[i]) == spec_advance(
                tests[i],
                phases[i],
                events[i],
            ),
        forall|i: int|
            0 <= i < tests.len() ==> AdvanceView::Finished(#[trigger] r2[i]) == spec_advance(
                tests[i],
                phases[i],
                events[i],
            ),
    ensures
        r1 == r2,
{
    assert forall|i: int| 0 <= i < tests.len() implies r1[i] == r2[i] by {
        assert(AdvanceView::Finished(r1[i]) == AdvanceView::Finished(r2[i]));
    }
    assert(r1 =~= r2);
}

/// When the proxy cannot even be reached, every test's exchange ends in a
/// transport failure, so every result is a transport error: the summary
/// reports no successes and no failed assertions — the error count is kept
/// apart from both.
pub proof fn lemma_unreachable_proxy_counts(results: Seq<TestResultView>)
    requires
        forall|i: int| 0 <= i < results.len() ==> (#[trigger] results[i]).status is Err,
    ensures
        spec_count_passed(results) == 0,
        spec_count_failed(results) == 0,
        spec_count_errored(results) == results.len(),
    decreases results.len(),
{
    if results.len() > 0 {
        assert(forall|i: int|
            0 <= i < results.drop_last().len() ==> (#[trigger] results.drop_last()[i]).status
                is Err);
        lemma_unreachable_proxy_counts(results.drop_last());
    }
}

} // verus!
