//! A black-box conformance harness for HTTP intermediaries.
//!
//! The crate checks that a proxy resolves or rejects ambiguous HTTP framing:
//! duplicate or conflicting `Content-Length` headers, and requests that carry
//! both `Content-Length` and `Transfer-Encoding: chunked`. A fixed catalog of
//! adversarial test cases is driven against a proxy address; a local origin
//! stub emits the crafted responses the scenarios need.
//!
//! The downstream side builds the raw requests, classifies the proxy's
//! responses and aggregates results; the upstream side models the origin stub.

pub mod downstream;
pub mod text;
pub mod upstream;
