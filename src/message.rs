//! Requests, payloads, responses and the uniform error of the pipeline.
use vstd::prelude::*;
use vstd::utf8::encode_utf8;
use crate::names::{content_type_name, spec_content_type_name, spec_text_plain_utf8, text_plain_utf8};

verus! {

/// A header list as byte sequences: (name, value) in insertion order.
pub open spec fn headers_view(hs: Seq<(Vec<u8>, Vec<u8>)>) -> Seq<(Seq<u8>, Seq<u8>)> {
    hs.map_values(|p: (Vec<u8>, Vec<u8>)| (p.0@, p.1@))
}

/// The value of the first header called `name`, if any.
pub open spec fn header_in(hs: Seq<(Seq<u8>, Seq<u8>)>, name: Seq<u8>) -> Option<Seq<u8>>
    decreases hs.len(),
{
    if hs.len() == 0 {
        None
    } else if hs[0].0 == name {
        Some(hs[0].1)
    } else {
        header_in(hs.drop_first(), name)
    }
}

/// A header list with every entry called `name` removed.
pub open spec fn without_header(hs: Seq<(Seq<u8>, Seq<u8>)>, name: Seq<u8>) -> Seq<(Seq<u8>, Seq<u8>)>
    decreases hs.len(),
{
    if hs.len() == 0 {
        hs
    } else if hs.last().0 == name {
        without_header(hs.drop_last(), name)
    } else {
        without_header(hs.drop_last(), name).push(hs.last())
    }
}

/// A header list after setting `name` to `value`: earlier entries of that name go.
pub open spec fn set_header(hs: Seq<(Seq<u8>, Seq<u8>)>, name: Seq<u8>, value: Seq<u8>) -> Seq<(Seq<u8>, Seq<u8>)> {
    without_header(hs, name).push((name, value))
}

/// A header list after setting each of `extra` in turn.
pub open spec fn set_headers(hs: Seq<(Seq<u8>, Seq<u8>)>, extra: Seq<(Seq<u8>, Seq<u8>)>) -> Seq<(Seq<u8>, Seq<u8>)>
    decreases extra.len(),
{
    if extra.len() == 0 {
        hs
    } else {
        let before = set_headers(hs, extra.drop_last());
        set_header(before, extra.last().0, extra.last().1)
    }
}

/// `b` is a byte that may stand in a header value that reads as text.
pub open spec fn is_visible_ascii(b: u8) -> bool {
    (32 <= b && b < 127) || b == 9
}

/// Every byte of `s` is visible ASCII (or a tab).
pub open spec fn all_visible_ascii(s: Seq<u8>) -> bool {
    forall|i: int| 0 <= i < s.len() ==> is_visible_ascii(#[trigger] s[i])
}

/// The request head as the pipeline sees it: header names are stored in lower case.
/// `form_limit` is the form-body limit that the application registered for the route.
pub struct HttpRequest {
    pub headers: Vec<(Vec<u8>, Vec<u8>)>,
    pub form_limit: Option<usize>,
}

/// The unconsumed request body: the chunks that are still to arrive, in order.
pub struct Payload {
    pub chunks: Vec<Vec<u8>>,
}

/// A response: status code, headers (lower-case names) and body bytes. `encoding`
/// holds the content encoding that application code asked for, if any.
pub struct Response {
    pub status: u16,
    pub headers: Vec<(Vec<u8>, Vec<u8>)>,
    pub body: Vec<u8>,
    pub encoding: Option<crate::compress::ContentEncoding>,
}

/// The uniform pipeline error: the status code of the error response and a message.
pub struct PipelineError {
    pub status: u16,
    pub message: String,
}

/// Status code 200.
pub const STATUS_OK: u16 = 200;

/// Status code 400.
pub const STATUS_BAD_REQUEST: u16 = 400;

/// Status code 404.
pub const STATUS_NOT_FOUND: u16 = 404;

/// Status code 411.
pub const STATUS_LENGTH_REQUIRED: u16 = 411;

/// Status code 413.
pub const STATUS_PAYLOAD_TOO_LARGE: u16 = 413;

/// Status code 500.
pub const STATUS_INTERNAL_SERVER_ERROR: u16 = 500;

/// Copies a byte vector.
pub fn copy_bytes(v: &Vec<u8>) -> (r: Vec<u8>)
    ensures
        r@ == v@,
{
    let mut r: Vec<u8> = Vec::with_capacity(v.len());
    let mut i: usize = 0;
    while i < v.len()
        invariant
            i <= v.len(),
            r@ == v@.subrange(0, i as int),
        decreases v.len() - i,
    {
        r.push(v[i]);
        i = i + 1;
    }
    assert(r@ =~= v@);
    r
}

/// Whether two byte strings are equal.
pub fn bytes_eq(a: &[u8], b: &[u8]) -> (r: bool)
    ensures
        r == (a@ == b@),
{
    if a.len() != b.len() {
        return false;
    }
    let mut i: usize = 0;
    while i < a.len()
        invariant
            i <= a.len(),
            a@.len() == b@.len(),
            forall|j: int| 0 <= j < i ==> a@[j] == b@[j],
        decreases a.len() - i,
    {
        if a[i] != b[i] {
            return false;
        }
        i = i + 1;
    }
    assert(a@ =~= b@);
    true
}

/// The value of the first header called `name` in `hs`.
pub fn find_header<'a>(hs: &'a Vec<(Vec<u8>, Vec<u8>)>, name: &[u8]) -> (r: Option<&'a Vec<u8>>)
    ensures
        r matches Some(v) ==> header_in(headers_view(hs@), name@) == Some(v@),
        r is None ==> header_in(headers_view(hs@), name@) is None,
{
    let ghost hv = headers_view(hs@);
    let mut i: usize = 0;
    assert(hv.subrange(0, hv.len() as int) =~= hv);
    while i < hs.len()
        invariant
            i <= hs.len(),
            hv == headers_view(hs@),
            header_in(hv, name@) == header_in(hv.subrange(i as int, hv.len() as int), name@),
        decreases hs.len() - i,
    {
        let ghost rest = hv.subrange(i as int, hv.len() as int);
        assert(rest.drop_first() =~= hv.subrange(i + 1, hv.len() as int));
        assert(rest[0] == (hs@[i as int].0@, hs@[i as int].1@));
        if bytes_eq(hs[i].0.as_slice(), name) {
            return Some(&hs[i].1);
        }
        i = i + 1;
    }
    assert(hv.subrange(i as int, hv.len() as int).len() == 0);
    None
}

/// Sets header `name` to `value` in `hs`, removing earlier entries of that name.
pub fn insert_header(hs: &mut Vec<(Vec<u8>, Vec<u8>)>, name: Vec<u8>, value: Vec<u8>)
    ensures
        headers_view(final(hs)@) == set_header(headers_view(old(hs)@), name@, value@),
{
    let mut kept: Vec<(Vec<u8>, Vec<u8>)> = Vec::new();
    let mut old_hs: Vec<(Vec<u8>, Vec<u8>)> = Vec::new();
    std::mem::swap(&mut old_hs, hs);
    let ghost ov = headers_view(old_hs@);
    let mut i: usize = 0;
    assert(ov.subrange(0, 0) =~= Seq::<(Seq<u8>, Seq<u8>)>::empty());
    assert(headers_view(kept@) =~= Seq::<(Seq<u8>, Seq<u8>)>::empty());
    while i < old_hs.len()
        invariant
            i <= old_hs.len(),
            ov == headers_view(old_hs@),
            headers_view(kept@) == without_header(ov.subrange(0, i as int), name@),
        decreases old_hs.len() - i,
    {
        assert(ov.subrange(0, i + 1).drop_last() =~= ov.subrange(0, i as int));
        assert(ov.subrange(0, i + 1).last() == (old_hs@[i as int].0@, old_hs@[i as int].1@));
        if !bytes_eq(old_hs[i].0.as_slice(), name.as_slice()) {
            let entry = (copy_bytes(&old_hs[i].0), copy_bytes(&old_hs[i].1));
            kept.push(entry);
            assert(headers_view(kept@) =~= without_header(ov.subrange(0, i as int), name@).push(ov[i as int]));
        }
        i = i + 1;
    }
    assert(ov.subrange(0, ov.len() as int) =~= ov);
    kept.push((name, value));
    assert(headers_view(kept@) =~= set_header(ov, name@, value@));
    *hs = kept;
}

impl HttpRequest {
    /// The value of the first header called `name`.
    pub fn header(&self, name: &[u8]) -> (r: Option<&Vec<u8>>)
        ensures
            r matches Some(v) ==> header_in(headers_view(self.headers@), name@) == Some(v@),
            r is None ==> header_in(headers_view(self.headers@), name@) is None,
    {
        find_header(&self.headers, name)
    }
}

impl Payload {
    /// An empty payload.
    pub fn empty() -> (r: Payload)
        ensures
            r.chunks@.len() == 0,
    {
        Payload { chunks: Vec::new() }
    }

    /// A payload that yields `bytes` as one chunk (nothing when `bytes` is empty).
    pub fn from_bytes(bytes: Vec<u8>) -> (r: Payload)
        ensures
            payload_bytes(r.chunks@) == bytes@,
            r.chunks@.len() <= 1,
    {
        let mut chunks: Vec<Vec<u8>> = Vec::new();
        let ghost b = bytes@;
        if bytes.len() > 0 {
            chunks.push(bytes);
            assert(chunks@.drop_last() =~= Seq::<Vec<u8>>::empty());
            assert(payload_bytes(chunks@.drop_last()) == Seq::<u8>::empty());
            assert(chunks@.last()@ == b);
            assert(Seq::<u8>::empty() + b =~= b);
        } else {
            assert(b =~= Seq::<u8>::empty());
        }
        Payload { chunks }
    }

    /// Takes the whole stream out, leaving an empty payload behind.
    pub fn take(&mut self) -> (r: Payload)
        ensures
            r.chunks@ == old(self).chunks@,
            final(self).chunks@.len() == 0,
    {
        let mut chunks: Vec<Vec<u8>> = Vec::new();
        std::mem::swap(&mut chunks, &mut self.chunks);
        Payload { chunks }
    }
}

/// All the bytes of a chunk sequence, concatenated.
pub open spec fn payload_bytes(chunks: Seq<Vec<u8>>) -> Seq<u8>
    decreases chunks.len(),
{
    if chunks.len() == 0 {
        Seq::empty()
    } else {
        payload_bytes(chunks.drop_last()) + chunks.last()@
    }
}

/// `res` renders `err`: its status, a plain-text content type and the message as body.
pub open spec fn is_error_response(res: Response, err: PipelineError) -> bool {
    &&& res.status == err.status
    &&& headers_view(res.headers@) == seq![(spec_content_type_name(), spec_text_plain_utf8())]
    &&& res.body@ == encode_utf8(err.message@)
    &&& res.encoding is None
}

/// The response that renders `err`.
pub fn response_from_error(err: PipelineError) -> (r: Response)
    ensures
        is_error_response(r, err),
{
    let mut headers: Vec<(Vec<u8>, Vec<u8>)> = Vec::new();
    headers.push((content_type_name(), text_plain_utf8()));
    assert(headers_view(headers@) =~= seq![(spec_content_type_name(), spec_text_plain_utf8())]);
    let body = copy_bytes_slice(err.message.as_str().as_bytes());
    Response { status: err.status, headers, body, encoding: None }
}

/// Copies a byte slice into a vector.
pub fn copy_bytes_slice(v: &[u8]) -> (r: Vec<u8>)
    ensures
        r@ == v@,
{
    let mut r: Vec<u8> = Vec::with_capacity(v.len());
    let mut i: usize = 0;
    while i < v.len()
        invariant
            i <= v.len(),
            r@ == v@.subrange(0, i as int),
        decreases v.len() - i,
    {
        r.push(v[i]);
        i = i + 1;
    }
    assert(r@ =~= v@);
    r
}

impl PipelineError {
    /// An error with the given status and message.
    pub fn new(status: u16, message: &str) -> (r: PipelineError)
        ensures
            r.status == status,
            r.message@ == message@,
    {
        PipelineError { status, message: message.to_owned() }
    }
}

} // verus!
