//! A miniature HTTP request builder.
//!
//! Most HTTP client libraries lean on the type system to make sure that only
//! well-formed requests can be built. This harness tests how proxies behave
//! when they receive ambiguous or malicious requests, so the builder here is
//! deliberately permissive: header lines are emitted exactly as supplied, in
//! order, with duplicates kept, and no length is ever computed for the caller.

use vstd::prelude::*;

verus! {

/// HTTP verbs.
#[derive(Copy, Clone, Debug, PartialEq, Eq, Structural)]
pub enum Verb {
    Get,
    Put,
    Post,
    Delete,
}

/// The verb's token on the request line.
pub open spec fn spec_verb_chars(v: Verb) -> Seq<char> {
    match v {
        Verb::Get => "GET"@,
        Verb::Put => "PUT"@,
        Verb::Post => "POST"@,
        Verb::Delete => "DELETE"@,
    }
}

impl Verb {
    /// The verb's token on the request line.
    pub fn as_str(&self) -> (r: &'static str)
        ensures
            r@ == spec_verb_chars(*self),
    {
        match self {
            Verb::Get => "GET",
            Verb::Put => "PUT",
            Verb::Post => "POST",
            Verb::Delete => "DELETE",
        }
    }
}

impl Default for Verb {
    fn default() -> (r: Self)
        ensures
            r == Verb::Get,
    {
        Verb::Get
    }
}

/// A raw HTTP request under construction: a verb, a target path, a protocol
/// version, a host, an ordered list of raw header lines (duplicates are
/// permitted and order is significant) and an optional body.
pub struct Request {
    pub verb: Verb,
    pub version: String,
    pub host: String,
    pub uri: String,
    pub headers: Vec<String>,
    pub body: Option<String>,
}

/// The mathematical content of a [`Request`].
pub struct RequestView {
    pub verb: Verb,
    pub version: Seq<char>,
    pub host: Seq<char>,
    pub uri: Seq<char>,
    pub headers: Seq<Seq<char>>,
    pub body: Option<Seq<char>>,
}

impl View for Request {
    type V = RequestView;

    open spec fn view(&self) -> RequestView {
        RequestView {
            verb: self.verb,
            version: self.version@,
            host: self.host@,
            uri: self.uri@,
            headers: self.headers.deep_view(),
            body: match self.body {
                Some(b) => Some(b@),
                None => None,
            },
        }
    }
}

/// Every header line followed by one CRLF, in the exact order supplied.
pub open spec fn spec_header_block(headers: Seq<Seq<char>>) -> Seq<char>
    decreases headers.len(),
{
    if headers.len() == 0 {
        Seq::empty()
    } else {
        headers[0] + "\r\n"@ + spec_header_block(headers.drop_first())
    }
}

proof fn lemma_header_block_push(headers: Seq<Seq<char>>, h: Seq<char>)
    ensures
        spec_header_block(headers.push(h)) == spec_header_block(headers) + h + "\r\n"@,
    decreases headers.len(),
{
    if headers.len() == 0 {
        let p = headers.push(h);
        assert(p.drop_first() =~= Seq::<Seq<char>>::empty());
        assert(spec_header_block(p.drop_first()) == Seq::<char>::empty());
        assert(spec_header_block(p) == h + "\r\n"@ + Seq::<char>::empty());
        assert(spec_header_block(headers) == Seq::<char>::empty());
        assert(h + "\r\n"@ + Seq::<char>::empty() =~= Seq::<char>::empty() + h + "\r\n"@);
    } else {
        assert(headers.push(h).drop_first() =~= headers.drop_first().push(h));
        lemma_header_block_push(headers.drop_first(), h);
        assert(spec_header_block(headers.push(h)) =~= spec_header_block(headers) + h + "\r\n"@);
    }
}

/// The exact bytes a request encodes to: the request line, the `Host` line,
/// every header line in the order supplied (duplicates kept), one blank line,
/// and the body verbatim. Nothing is deduplicated, reordered or validated.
pub open spec fn spec_encode_request(r: RequestView) -> Seq<char> {
    spec_verb_chars(r.verb) + " "@ + r.uri + " "@ + r.version + "\r\n"@ + "Host: "@ + r.host
        + "\r\n"@ + spec_header_block(r.headers) + "\r\n"@ + (match r.body {
        Some(b) => b,
        None => Seq::<char>::empty(),
    })
}

impl Request {
    /// A fresh request: `GET / HTTP/1.1` with an empty host, no header lines
    /// and no body, ready to be specialised by the `with_*` methods. Nothing
    /// is pre-supplied: the encoder emits exactly what the caller asks for.
    pub fn new() -> (r: Self)
        ensures
            r@ == (RequestView {
                verb: Verb::Get,
                version: "HTTP/1.1"@,
                host: Seq::<char>::empty(),
                uri: "/"@,
                headers: Seq::<Seq<char>>::empty(),
                body: None::<Seq<char>>,
            }),
    {
        let r = Request {
            verb: Verb::Get,
            version: String::from_str("HTTP/1.1"),
            host: String::new(),
            uri: String::from_str("/"),
            headers: Vec::new(),
            body: None,
        };
        proof {
            assert(r@.headers =~= Seq::<Seq<char>>::empty());
        }
        r
    }

    /// Finish building the request, returning the exact wire text.
    pub fn build(&self) -> (r: String)
        ensures
            r@ == spec_encode_request(self@),
    {
        let mut s = String::new();
        s.append(self.verb.as_str());
        s.append(" ");
        s.append(self.uri.as_str());
        s.append(" ");
        s.append(self.version.as_str());
        s.append("\r\n");
        s.append("Host: ");
        s.append(self.host.as_str());
        s.append("\r\n");
        let ghost head: Seq<char> = s@;
        let n = self.headers.len();
        let mut i: usize = 0;
        while i < n
            invariant
                i <= n,
                n == self.headers@.len(),
                s@ == head + spec_header_block(self@.headers.take(i as int)),
            decreases n - i,
        {
            s.append(self.headers[i].as_str());
            s.append("\r\n");
            proof {
                assert(self@.headers.take(i as int).push(self@.headers[i as int])
                    =~= self@.headers.take(i as int + 1));
                lemma_header_block_push(self@.headers.take(i as int), self@.headers[i as int]);
            }
            i = i + 1;
        }
        proof {
            assert(self@.headers.take(n as int) =~= self@.headers);
        }
        s.append("\r\n");
        match &self.body {
            Some(b) => s.append(b.as_str()),
            None => (),
        }
        proof {
            assert(s@ =~= spec_encode_request(self@));
        }
        s
    }

    /// Sets the request's verb.
    pub fn with_verb(&mut self, verb: Verb) -> (r: &mut Self)
        ensures
            (*r)@ == (RequestView { verb, ..old(self)@ }),
            *final(self) == *final(r),
    {
        self.verb = verb;
        self
    }

    /// Sets the host named on the `Host` line.
    pub fn with_host(&mut self, host: &str) -> (r: &mut Self)
        ensures
            (*r)@ == (RequestView { host: host@, ..old(self)@ }),
            *final(self) == *final(r),
    {
        self.host = String::from_str(host);
        self
    }

    /// Sets the request's target path.
    pub fn with_path(&mut self, uri: &str) -> (r: &mut Self)
        ensures
            (*r)@ == (RequestView { uri: uri@, ..old(self)@ }),
            *final(self) == *final(r),
    {
        self.uri = String::from_str(uri);
        self
    }

    /// Appends one raw header line, after any lines already present. The line
    /// is kept verbatim: nothing checks it against the other lines.
    pub fn with_header(&mut self, header: &str) -> (r: &mut Self)
        ensures
            (*r)@ == (RequestView { headers: old(self)@.headers.push(header@), ..old(self)@ }),
            *final(self) == *final(r),
    {
        let h = String::from_str(header);
        self.headers.push(h);
        proof {
            assert(self.headers.deep_view() =~= old(self).headers.deep_view().push(header@));
        }
        self
    }

    /// Sets the request's body, sent verbatim after the blank line. No
    /// `Content-Length` is computed from it: framing headers are solely the
    /// caller's to supply.
    pub fn with_body(&mut self, body: &str) -> (r: &mut Self)
        ensures
            (*r)@ == (RequestView { body: Some(body@), ..old(self)@ }),
            *final(self) == *final(r),
    {
        self.body = Some(String::from_str(body));
        self
    }
}

fn clone_strings(v: &Vec<String>) -> (r: Vec<String>)
    ensures
        r.deep_view() == v.deep_view(),
{
    let mut r: Vec<String> = Vec::new();
    let n = v.len();
    let mut i: usize = 0;
    while i < n
        invariant
            i <= n,
            n == v@.len(),
            r@.len() == i,
            r.deep_view() == v.deep_view().take(i as int),
        decreases n - i,
    {
        let ghost prev = r.deep_view();
        let cloned = v[i].clone();
        proof {
            assert(cloned@ == v@[i as int]@);
        }
        r.push(cloned);
        proof {
            assert(r@.len() == i + 1);
            assert(r.deep_view().len() == i + 1);
            assert forall|j: int| 0 <= j < i + 1 implies r.deep_view()[j] == v.deep_view().take(
                i as int + 1,
            )[j] by {
                if j < i {
                    assert(r.deep_view()[j] == prev[j]);
                } else {
                    assert(r@[j] == cloned);
                }
            }
            assert(r.deep_view() =~= v.deep_view().take(i as int + 1));
        }
        i = i + 1;
    }
    proof {
        assert(v.deep_view().take(n as int) =~= v.deep_view());
    }
    r
}

impl Request {
    /// A copy of this template with the live host substituted.
    pub fn specialize(&self, host: &str) -> (r: Request)
        ensures
            r@ == (RequestView { host: host@, ..self@ }),
    {
        let body = match &self.body {
            Some(b) => Some(b.clone()),
            None => None,
        };
        Request {
            verb: self.verb,
            version: self.version.clone(),
            host: String::from_str(host),
            uri: self.uri.clone(),
            headers: clone_strings(&self.headers),
            body,
        }
    }
}

} // verus!
