//! The origin stub's view of a request it received: just enough structure to
//! route by path and to judge what the proxy forwarded — the headers it still
//! carries and the body that arrived. The grammar is minimal on purpose: the
//! request line's three space-separated parts, then one header per
//! CRLF-separated line with the name before the first colon, then the body
//! after the first blank line.

use vstd::prelude::*;
use vstd::slice::{slice_subrange, slice_to_vec};
use vstd::utf8::{decode_utf8, encode_utf8, valid_utf8};

use crate::text::{
    bytes_equal, bytes_to_text, find_first, lemma_spec_find_characterizes, parse_decimal,
    spec_digits_value, spec_find, spec_is_digits,
};

verus! {

/// A request as the origin stub reads it: the target path, the header
/// name/value pairs in arrival order, and the raw body bytes.
pub struct InboundRequest {
    pub path: String,
    pub headers: Vec<(String, String)>,
    pub body: Vec<u8>,
}

/// The mathematical content of an [`InboundRequest`].
pub struct InboundRequestView {
    pub path: Seq<char>,
    pub headers: Seq<(Seq<char>, Seq<char>)>,
    pub body: Seq<u8>,
}

impl View for InboundRequest {
    type V = InboundRequestView;

    open spec fn view(&self) -> InboundRequestView {
        InboundRequestView {
            path: self.path@,
            headers: self.headers.deep_view(),
            body: self.body@,
        }
    }
}

/// A header with exactly this name arrived, whatever its value.
pub open spec fn spec_has_header(req: InboundRequestView, name: Seq<char>) -> bool {
    exists|i: int| 0 <= i < req.headers.len() && (#[trigger] req.headers[i]).0 == name
}

impl InboundRequest {
    /// Whether a header with exactly this name arrived, whatever its value.
    pub fn has_header(&self, name: &str) -> (r: bool)
        ensures
            r == spec_has_header(self@, name@),
    {
        let target = String::from_str(name);
        let n = self.headers.len();
        let mut i: usize = 0;
        while i < n
            invariant
                i <= n,
                n == self.headers@.len(),
                target@ == name@,
                forall|k: int| 0 <= k < i ==> (#[trigger] self@.headers[k]).0 != name@,
            decreases n - i,
        {
            if self.headers[i].0 == target {
                proof {
                    assert((self@.headers[i as int]).0 == name@);
                }
                return true;
            }
            i = i + 1;
        }
        false
    }
}

/// The bytes of one CRLF: carriage return, line feed.
pub open spec fn crlf_bytes() -> Seq<u8> {
    seq![13u8, 10u8]
}

/// The bytes that end the head: two CRLFs, a blank line.
pub open spec fn crlf2_bytes() -> Seq<u8> {
    seq![13u8, 10u8, 13u8, 10u8]
}

/// The bytes of one space.
pub open spec fn space_bytes() -> Seq<u8> {
    seq![32u8]
}

/// The bytes of one colon.
pub open spec fn colon_bytes() -> Seq<u8> {
    seq![58u8]
}

fn crlf_vec() -> (r: Vec<u8>)
    ensures
        r@ == crlf_bytes(),
{
    let mut r: Vec<u8> = Vec::new();
    r.push(13);
    r.push(10);
    proof {
        assert(r@ =~= crlf_bytes());
    }
    r
}

fn crlf2_vec() -> (r: Vec<u8>)
    ensures
        r@ == crlf2_bytes(),
{
    let mut r: Vec<u8> = Vec::new();
    r.push(13);
    r.push(10);
    r.push(13);
    r.push(10);
    proof {
        assert(r@ =~= crlf2_bytes());
    }
    r
}

fn space_vec() -> (r: Vec<u8>)
    ensures
        r@ == space_bytes(),
{
    let mut r: Vec<u8> = Vec::new();
    r.push(32);
    proof {
        assert(r@ =~= space_bytes());
    }
    r
}

fn colon_vec() -> (r: Vec<u8>)
    ensures
        r@ == colon_bytes(),
{
    let mut r: Vec<u8> = Vec::new();
    r.push(58);
    proof {
        assert(r@ =~= colon_bytes());
    }
    r
}

/// The head split into lines at each CRLF. A trailing fragment without a
/// CRLF is a line of its own; the bounds checks cannot fail on what
/// `spec_find` returns and only keep the definition total.
pub open spec fn spec_lines(b: Seq<u8>) -> Seq<Seq<u8>>
    decreases b.len(),
{
    if b.len() == 0 {
        Seq::empty()
    } else {
        match spec_find(b, crlf_bytes()) {
            None => seq![b],
            Some(i) => if i + 2 <= b.len() {
                seq![b.take(i as int)] + spec_lines(b.skip(i as int + 2))
            } else {
                seq![b]
            },
        }
    }
}

/// The same bytes with every leading space removed.
pub open spec fn spec_trim_leading_spaces(b: Seq<u8>) -> Seq<u8>
    decreases b.len(),
{
    if b.len() > 0 && b[0] == 32u8 {
        spec_trim_leading_spaces(b.drop_first())
    } else {
        b
    }
}

/// A header line split at its first colon: the name, and the value with its
/// leading spaces removed. A line without a colon is malformed.
pub open spec fn spec_header_pair(line: Seq<u8>) -> Option<(Seq<u8>, Seq<u8>)> {
    match spec_find(line, colon_bytes()) {
        None => None,
        Some(i) => if i + 1 <= line.len() {
            Some((line.take(i as int), spec_trim_leading_spaces(line.skip(i as int + 1))))
        } else {
            None
        },
    }
}

/// Every header line as a name/value pair of text, in order; `None` when a
/// line has no colon or a part is not UTF-8 text.
pub open spec fn spec_header_views(lines: Seq<Seq<u8>>) -> Option<Seq<(Seq<char>, Seq<char>)>>
    decreases lines.len(),
{
    if lines.len() == 0 {
        Some(Seq::empty())
    } else {
        match spec_header_pair(lines[0]) {
            None => None,
            Some((n, v)) => if valid_utf8(n) && valid_utf8(v) {
                match spec_header_views(lines.drop_first()) {
                    None => None,
                    Some(hs) => Some(seq![(decode_utf8(n), decode_utf8(v))] + hs),
                }
            } else {
                None
            },
        }
    }
}

/// The request line's three parts: the method, the target path, and the
/// protocol version, separated by the line's first two spaces.
pub open spec fn spec_request_line_parts(line: Seq<u8>) -> Option<(Seq<u8>, Seq<u8>, Seq<u8>)> {
    match spec_find(line, space_bytes()) {
        None => None,
        Some(i) => if i + 1 <= line.len() {
            let rest = line.skip(i as int + 1);
            match spec_find(rest, space_bytes()) {
                None => None,
                Some(j) => if j + 1 <= rest.len() {
                    Some((line.take(i as int), rest.take(j as int), rest.skip(j as int + 1)))
                } else {
                    None
                },
            }
        } else {
            None
        },
    }
}

/// What a buffer of request bytes parses to: everything before the first
/// blank line is the head, whose first line must have the three request-line
/// parts with a UTF-8 path, and whose other lines must each be a well-formed
/// header; everything after the blank line is the body, kept as raw bytes.
pub open spec fn spec_parse_request(b: Seq<u8>) -> Option<InboundRequestView> {
    match spec_find(b, crlf2_bytes()) {
        None => None,
        Some(he) => if he + 4 <= b.len() {
            let head = b.take(he as int);
            let body = b.skip(he as int + 4);
            let lines = spec_lines(head);
            if lines.len() == 0 {
                None
            } else {
                match spec_request_line_parts(lines[0]) {
                    None => None,
                    Some((_method, path, _version)) => if valid_utf8(path) {
                        match spec_header_views(lines.drop_first()) {
                            None => None,
                            Some(hs) => Some(
                                InboundRequestView { path: decode_utf8(path), headers: hs, body },
                            ),
                        }
                    } else {
                        None
                    },
                }
            }
        } else {
            None
        },
    }
}

proof fn lemma_trim_skip(s: Seq<u8>, j: int)
    requires
        0 <= j <= s.len(),
        forall|k: int| 0 <= k < j ==> s[k] == 32u8,
        j == s.len() || s[j] != 32u8,
    ensures
        spec_trim_leading_spaces(s) == s.skip(j),
    decreases j,
{
    if j == 0 {
        assert(s.skip(0) =~= s);
    } else {
        assert(s.drop_first() =~= s.skip(1));
        lemma_trim_skip(s.skip(1), j - 1);
        assert(s.skip(1).skip(j - 1) =~= s.skip(j));
    }
}

fn split_lines(head: &[u8]) -> (r: Vec<Vec<u8>>)
    ensures
        r.deep_view() == spec_lines(head@),
{
    let crlf = crlf_vec();
    let mut lines: Vec<Vec<u8>> = Vec::new();
    let n = head.len();
    let mut pos: usize = 0;
    proof {
        assert(head@.skip(0) =~= head@);
        assert(lines.deep_view() =~= Seq::<Seq<u8>>::empty());
        assert(Seq::<Seq<u8>>::empty() + spec_lines(head@) =~= spec_lines(head@));
    }
    loop
        invariant_except_break
            spec_lines(head@) == lines.deep_view() + spec_lines(head@.skip(pos as int)),
        invariant
            pos <= n,
            n == head@.len(),
            crlf@ == crlf_bytes(),
        ensures
            lines.deep_view() == spec_lines(head@),
        decreases n - pos,
    {
        let ghost prev = lines.deep_view();
        let ghost prev_raw = lines@;
        let rest = slice_subrange(head, pos, n);
        proof {
            assert(rest@ =~= head@.skip(pos as int));
        }
        if rest.len() == 0 {
            proof {
                assert(spec_lines(rest@) =~= Seq::<Seq<u8>>::empty());
                assert(lines.deep_view() =~= spec_lines(head@));
            }
            break ;
        }
        match find_first(rest, crlf.as_slice()) {
            None => {
                let line = slice_to_vec(rest);
                lines.push(line);
                proof {
                    assert(spec_lines(rest@) =~= seq![rest@]);
                    assert forall|t: int| 0 <= t < lines@.len() implies lines.deep_view()[t]
                        == prev.push(rest@)[t] by {
                        if t < prev_raw.len() {
                            assert(lines@[t] == prev_raw[t]);
                        } else {
                            assert(lines@[t]@ == rest@);
                        }
                    }
                    assert(lines.deep_view() =~= prev.push(rest@));
                    assert(prev.push(rest@) =~= prev + seq![rest@]);
                    assert(lines.deep_view() =~= spec_lines(head@));
                }
                break ;
            },
            Some(i) => {
                proof {
                    lemma_spec_find_characterizes(rest@, crlf_bytes());
                }
                let line = slice_to_vec(slice_subrange(rest, 0, i));
                lines.push(line);
                proof {
                    assert(line@ =~= rest@.take(i as int));
                    assert(rest@.skip(i as int + 2) =~= head@.skip(pos as int + i + 2));
                    assert(spec_lines(rest@) == seq![rest@.take(i as int)] + spec_lines(
                        rest@.skip(i as int + 2),
                    ));
                    assert forall|t: int| 0 <= t < lines@.len() implies lines.deep_view()[t]
                        == prev.push(rest@.take(i as int))[t] by {
                        if t < prev_raw.len() {
                            assert(lines@[t] == prev_raw[t]);
                        } else {
                            assert(lines@[t]@ == rest@.take(i as int));
                        }
                    }
                    assert(lines.deep_view() =~= prev.push(rest@.take(i as int)));
                    assert(lines.deep_view() + spec_lines(head@.skip(pos as int + i + 2)) =~= prev
                        + spec_lines(rest@));
                }
                pos = pos + i + 2;
            },
        }
    }
    lines
}

fn header_pair(line: &[u8]) -> (r: Option<(Vec<u8>, Vec<u8>)>)
    ensures
        match r {
            Some(p) => spec_header_pair(line@) == Some((p.0@, p.1@)),
            None => spec_header_pair(line@) is None,
        },
{
    let colon = colon_vec();
    let n = line.len();
    match find_first(line, colon.as_slice()) {
        None => None,
        Some(i) => {
            proof {
                lemma_spec_find_characterizes(line@, colon_bytes());
            }
            let name = slice_to_vec(slice_subrange(line, 0, i));
            let raw = slice_subrange(line, i + 1, n);
            proof {
                assert(name@ =~= line@.take(i as int));
                assert(raw@ =~= line@.skip(i as int + 1));
            }
            let m = raw.len();
            let mut j: usize = 0;
            while j < m && raw[j] == 32u8
                invariant
                    j <= m,
                    m == raw@.len(),
                    forall|k: int| 0 <= k < j ==> raw@[k] == 32u8,
                decreases m - j,
            {
                j = j + 1;
            }
            let value = slice_to_vec(slice_subrange(raw, j, m));
            proof {
                lemma_trim_skip(raw@, j as int);
                assert(value@ =~= raw@.skip(j as int));
            }
            Some((name, value))
        },
    }
}

fn request_line_parts(line: &[u8]) -> (r: Option<(Vec<u8>, Vec<u8>, Vec<u8>)>)
    ensures
        match r {
            Some(p) => spec_request_line_parts(line@) == Some((p.0@, p.1@, p.2@)),
            None => spec_request_line_parts(line@) is None,
        },
{
    let space = space_vec();
    let n = line.len();
    match find_first(line, space.as_slice()) {
        None => None,
        Some(i) => {
            proof {
                lemma_spec_find_characterizes(line@, space_bytes());
            }
            let rest = slice_subrange(line, i + 1, n);
            proof {
                assert(rest@ =~= line@.skip(i as int + 1));
            }
            match find_first(rest, space.as_slice()) {
                None => None,
                Some(j) => {
                    proof {
                        lemma_spec_find_characterizes(rest@, space_bytes());
                    }
                    let method = slice_to_vec(slice_subrange(line, 0, i));
                    let path = slice_to_vec(slice_subrange(rest, 0, j));
                    let version = slice_to_vec(slice_subrange(rest, j + 1, rest.len()));
                    proof {
                        assert(method@ =~= line@.take(i as int));
                        assert(path@ =~= rest@.take(j as int));
                        assert(version@ =~= rest@.skip(j as int + 1));
                    }
                    Some((method, path, version))
                },
            }
        },
    }
}

fn parse_header_lines(lines: &[Vec<u8>]) -> (r: Option<Vec<(String, String)>>)
    ensures
        match r {
            Some(hs) => spec_header_views(lines.deep_view()) == Some(hs.deep_view()),
            None => spec_header_views(lines.deep_view()) is None,
        },
{
    let ghost linesv = lines.deep_view();
    let mut acc: Vec<(String, String)> = Vec::new();
    let n = lines.len();
    let mut k: usize = 0;
    proof {
        assert(linesv.skip(0) =~= linesv);
        assert(acc.deep_view() =~= Seq::<(Seq<char>, Seq<char>)>::empty());
        match spec_header_views(linesv) {
            Some(hs) => {
                assert(Seq::<(Seq<char>, Seq<char>)>::empty() + hs =~= hs);
            },
            None => {},
        }
    }
    while k < n
        invariant
            k <= n,
            n == linesv.len(),
            n == lines@.len(),
            linesv == lines.deep_view(),
            match spec_header_views(linesv.skip(k as int)) {
                Some(hs) => spec_header_views(linesv) == Some(acc.deep_view() + hs),
                None => spec_header_views(linesv) is None,
            },
        decreases n - k,
    {
        let ghost prev = acc.deep_view();
        let ghost prev_raw = acc@;
        let ghost tailv = linesv.skip(k as int);
        proof {
            assert(tailv[0] == linesv[k as int]);
            assert(tailv.drop_first() =~= linesv.skip(k as int + 1));
            assert(lines@[k as int].deep_view() == linesv[k as int]);
            assert(lines@[k as int].deep_view() =~= lines@[k as int]@);
        }
        match header_pair(lines[k].as_slice()) {
            None => {
                proof {
                    assert(spec_header_views(tailv) is None);
                }
                return None;
            },
            Some((name, value)) => {
                let name_text = bytes_to_text(name.as_slice());
                let value_text = bytes_to_text(value.as_slice());
                match (name_text, value_text) {
                    (Some(name_text), Some(value_text)) => {
                        let ghost pair = (decode_utf8(name@), decode_utf8(value@));
                        proof {
                            assert(name_text@ == pair.0);
                            assert(value_text@ == pair.1);
                        }
                        acc.push((name_text, value_text));
                        proof {
                            assert forall|t: int| 0 <= t < acc@.len() implies acc.deep_view()[t]
                                == prev.push(pair)[t] by {
                                if t < prev_raw.len() {
                                    assert(acc@[t] == prev_raw[t]);
                                } else {
                                    assert(acc@[t].deep_view() == pair);
                                }
                            }
                            assert(acc.deep_view() =~= prev.push(pair));
                            match spec_header_views(linesv.skip(k as int + 1)) {
                                Some(hs) => {
                                    assert(spec_header_views(tailv) == Some(seq![pair] + hs));
                                    assert(prev + (seq![pair] + hs) =~= acc.deep_view() + hs);
                                },
                                None => {
                                    assert(spec_header_views(tailv) is None);
                                },
                            }
                        }
                        k = k + 1;
                    },
                    _ => {
                        proof {
                            assert(spec_header_views(tailv) is None);
                        }
                        return None;
                    },
                }
            },
        }
    }
    proof {
        assert(linesv.skip(n as int) =~= Seq::<Seq<u8>>::empty());
        assert(spec_header_views(linesv.skip(n as int)) == Some(
            Seq::<(Seq<char>, Seq<char>)>::empty(),
        ));
        assert(acc.deep_view() + Seq::<(Seq<char>, Seq<char>)>::empty() =~= acc.deep_view());
    }
    Some(acc)
}

/// Parses a buffer of request bytes into the stub's view of the request, or
/// `None` when the buffer has no blank line, no well-formed request line, a
/// malformed header line, or text fields that are not UTF-8.
pub fn parse_inbound(bytes: &[u8]) -> (r: Option<InboundRequest>)
    ensures
        match r {
            Some(req) => spec_parse_request(bytes@) == Some(req@),
            None => spec_parse_request(bytes@) is None,
        },
{
    let crlf2 = crlf2_vec();
    let n = bytes.len();
    match find_first(bytes, crlf2.as_slice()) {
        None => None,
        Some(he) => {
            proof {
                lemma_spec_find_characterizes(bytes@, crlf2_bytes());
            }
            let head = slice_subrange(bytes, 0, he);
            let body = slice_to_vec(slice_subrange(bytes, he + 4, n));
            proof {
                assert(head@ =~= bytes@.take(he as int));
                assert(body@ =~= bytes@.skip(he as int + 4));
            }
            let lines = split_lines(head);
            if lines.len() == 0 {
                return None;
            }
            proof {
                assert(lines@[0].deep_view() == lines.deep_view()[0]);
                assert(lines@[0].deep_view() =~= lines@[0]@);
                assert(spec_lines(bytes@.take(he as int)) == lines.deep_view());
            }
            match request_line_parts(lines[0].as_slice()) {
                None => None,
                Some((_method, path, _version)) => {
                    match bytes_to_text(path.as_slice()) {
                        None => None,
                        Some(path_text) => {
                            let header_lines = slice_subrange(lines.as_slice(), 1, lines.len());
                            proof {
                                assert forall|t: int|
                                    0 <= t < header_lines@.len() implies header_lines.deep_view()[t]
                                    == lines.deep_view().drop_first()[t] by {
                                    assert(header_lines@[t] == lines@[t + 1]);
                                }
                                assert(header_lines.deep_view() =~= lines.deep_view().drop_first());
                            }
                            match parse_header_lines(header_lines) {
                                None => None,
                                Some(headers) => {
                                    let req = InboundRequest { path: path_text, headers, body };
                                    Some(req)
                                },
                            }
                        },
                    }
                },
            }
        },
    }
}


/// The body length one header line promises: the value of a `Content-Length`
/// header (either spelling a proxy commonly forwards), read as decimal. A
/// line that is not such a header, or whose value is not a number that fits
/// `usize`, promises nothing.
pub open spec fn spec_line_declared(line: Seq<u8>) -> nat {
    match spec_header_pair(line) {
        Some((name, value)) => if (name == encode_utf8("Content-Length"@) || name == encode_utf8(
            "content-length"@,
        )) && spec_is_digits(value) && spec_digits_value(value) <= usize::MAX {
            spec_digits_value(value)
        } else {
            0
        },
        None => 0,
    }
}

/// The largest body length any of the head's lines promises.
pub open spec fn spec_declared_length(lines: Seq<Seq<u8>>) -> nat
    decreases lines.len(),
{
    if lines.len() == 0 {
        0
    } else {
        let rest = spec_declared_length(lines.drop_first());
        if spec_line_declared(lines[0]) > rest {
            spec_line_declared(lines[0])
        } else {
            rest
        }
    }
}

/// The buffer holds a whole request, as far as its own framing promises: the
/// head has ended, and as many body bytes have arrived as the largest
/// `Content-Length` it declares. A reader may stop here; `parse_inbound`
/// remains the authority on what the bytes mean.
pub open spec fn spec_request_complete(b: Seq<u8>) -> bool {
    match spec_find(b, crlf2_bytes()) {
        None => false,
        Some(he) => he + 4 <= b.len() && b.len() - he - 4 >= spec_declared_length(
            spec_lines(b.take(he as int)),
        ),
    }
}

fn line_declared(line: &[u8]) -> (r: usize)
    ensures
        r == spec_line_declared(line@),
{
    match header_pair(line) {
        None => 0,
        Some((name, value)) => {
            let named = bytes_equal(name.as_slice(), "Content-Length".as_bytes()) || bytes_equal(
                name.as_slice(),
                "content-length".as_bytes(),
            );
            if named {
                match parse_decimal(value.as_slice()) {
                    Some(n) => n,
                    None => 0,
                }
            } else {
                0
            }
        },
    }
}

/// Whether a buffer already holds a whole request, judged by its own framing
/// headers. The stub's read loop stops here instead of waiting for a close.
pub fn request_complete(bytes: &[u8]) -> (r: bool)
    ensures
        r == spec_request_complete(bytes@),
{
    let crlf2 = crlf2_vec();
    let n = bytes.len();
    match find_first(bytes, crlf2.as_slice()) {
        None => false,
        Some(he) => {
            proof {
                lemma_spec_find_characterizes(bytes@, crlf2_bytes());
            }
            let head = slice_subrange(bytes, 0, he);
            proof {
                assert(head@ =~= bytes@.take(he as int));
            }
            let lines = split_lines(head);
            let ghost linesv = lines.deep_view();
            let count = lines.len();
            let mut declared: usize = 0;
            let mut k: usize = 0;
            proof {
                assert(linesv.skip(0) =~= linesv);
            }
            while k < count
                invariant
                    k <= count,
                    count == linesv.len(),
                    count == lines@.len(),
                    linesv == lines.deep_view(),
                    spec_declared_length(linesv) == (if declared > spec_declared_length(
                        linesv.skip(k as int),
                    ) {
                        declared as nat
                    } else {
                        spec_declared_length(linesv.skip(k as int))
                    }),
                decreases count - k,
            {
                proof {
                    assert(linesv.skip(k as int)[0] == linesv[k as int]);
                    assert(linesv.skip(k as int).drop_first() =~= linesv.skip(k as int + 1));
                    assert(lines@[k as int].deep_view() == linesv[k as int]);
                    assert(lines@[k as int].deep_view() =~= lines@[k as int]@);
                }
                let cur = line_declared(lines[k].as_slice());
                if cur > declared {
                    declared = cur;
                }
                k = k + 1;
            }
            proof {
                assert(linesv.skip(count as int) =~= Seq::<Seq<u8>>::empty());
                assert(spec_declared_length(linesv.skip(count as int)) == 0);
            }
            n - he - 4 >= declared
        },
    }
}

} // verus!
