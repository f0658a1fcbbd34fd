//! The response protocol: values that turn themselves into responses, and a wrapper
//! that overrides the status and headers of any of them.
use vstd::prelude::*;
use vstd::utf8::encode_utf8;
use crate::either::Either;
use crate::form::{encode_form, form_pairs, form_text, pairs_view, Form};
use crate::form::{effective_limit, form_result, form_setup, lemma_gather_within, UrlencodedError};
use crate::message::{
    payload_bytes, copy_bytes, copy_bytes_slice, headers_view, is_error_response, response_from_error, insert_header, set_headers, HttpRequest,
    PipelineError, Response, STATUS_BAD_REQUEST, STATUS_NOT_FOUND, STATUS_OK,
};
use crate::names::{
    content_type_name, form_urlencoded_type, octet_stream, spec_content_type_name,
    spec_form_urlencoded_type, spec_octet_stream, spec_text_plain_utf8, text_plain_utf8,
};

verus! {

/// The lower-case header name that a key spells, if it is a valid header name.
pub uninterp spec fn header_name_of(key: Seq<u8>) -> Option<Seq<u8>>;

/// `b` may stand in a header value.
pub open spec fn header_value_byte(b: u8) -> bool {
    (b >= 32 && b != 127) || b == 9
}

/// Relies on `http::HeaderName::from_bytes`: the normalized (lower-case) name, or none
/// when the key is not a valid header name.
#[verifier::external_body]
fn parse_header_name(key: &[u8]) -> (r: Option<Vec<u8>>)
    ensures
        match r {
            Some(n) => header_name_of(key@) == Some(n@),
            None => header_name_of(key@) is None,
        },
{
    http::header::HeaderName::from_bytes(key).ok().map(|n| n.as_str().as_bytes().to_vec())
}

/// Whether every byte of `value` may stand in a header value (the rule that
/// `http::HeaderValue` applies).
fn header_value_valid(value: &[u8]) -> (r: bool)
    ensures
        r == forall|i: int| 0 <= i < value@.len() ==> header_value_byte(#[trigger] value@[i]),
{
    let mut i: usize = 0;
    while i < value.len()
        invariant
            i <= value.len(),
            forall|j: int| 0 <= j < i ==> header_value_byte(#[trigger] value@[j]),
        decreases value.len() - i,
    {
        let b = value[i];
        if !((b >= 32 && b != 127) || b == 9) {
            assert(!header_value_byte(value@[i as int]));
            return false;
        }
        i = i + 1;
    }
    true
}

/// A value that can be turned into a response for a request. `responds` relates the
/// value and the request to each outcome.
pub trait Responder: Sized {
    spec fn responds(self, req: HttpRequest, r: Result<Response, PipelineError>) -> bool;

    fn respond_to(self, req: &HttpRequest) -> (r: Result<Response, PipelineError>)
        ensures
            self.responds(*req, r),
    ;
}

/// An error responds with its own rendering.
impl Responder for PipelineError {
    open spec fn responds(self, req: HttpRequest, r: Result<Response, PipelineError>) -> bool {
        r matches Ok(res) && is_error_response(res, self)
    }

    fn respond_to(self, req: &HttpRequest) -> (r: Result<Response, PipelineError>) {
        Ok(response_from_error(self))
    }
}

/// `res` is a 200 response with content type `ct` and body `body`.
pub open spec fn is_ok_with(res: Response, ct: Seq<u8>, body: Seq<u8>) -> bool {
    &&& res.status == STATUS_OK
    &&& headers_view(res.headers@) == seq![(spec_content_type_name(), ct)]
    &&& res.body@ == body
    &&& res.encoding is None
}

/// A 200 response with content type `ct` and body `body`.
fn ok_with(ct: Vec<u8>, body: Vec<u8>) -> (r: Response)
    ensures
        is_ok_with(r, ct@, body@),
{
    let mut headers: Vec<(Vec<u8>, Vec<u8>)> = Vec::new();
    headers.push((content_type_name(), ct));
    let ghost h = headers_view(headers@);
    assert(h =~= seq![(spec_content_type_name(), h[0].1)]);
    Response { status: STATUS_OK, headers, body, encoding: None }
}

impl Responder for Response {
    open spec fn responds(self, req: HttpRequest, r: Result<Response, PipelineError>) -> bool {
        r == Ok::<Response, PipelineError>(self)
    }

    fn respond_to(self, req: &HttpRequest) -> (r: Result<Response, PipelineError>) {
        Ok(self)
    }
}

/// `Some` responds as its value does; `None` is an empty 404.
impl<T: Responder> Responder for Option<T> {
    open spec fn responds(self, req: HttpRequest, r: Result<Response, PipelineError>) -> bool {
        match self {
            Some(t) => t.responds(req, r),
            None => r matches Ok(res) && res.status == STATUS_NOT_FOUND && res.headers@.len() == 0
                && res.body@.len() == 0 && res.encoding is None,
        }
    }

    fn respond_to(self, req: &HttpRequest) -> (r: Result<Response, PipelineError>) {
        match self {
            Some(t) => t.respond_to(req),
            None => Ok(Response { status: STATUS_NOT_FOUND, headers: Vec::new(), body: Vec::new(), encoding: None }),
        }
    }
}

/// `Ok` responds as its value does; `Err` fails with its error.
impl<T: Responder> Responder for Result<T, PipelineError> {
    open spec fn responds(self, req: HttpRequest, r: Result<Response, PipelineError>) -> bool {
        match self {
            Ok(t) => t.responds(req, r),
            Err(e) => r == Err::<Response, PipelineError>(e),
        }
    }

    fn respond_to(self, req: &HttpRequest) -> (r: Result<Response, PipelineError>) {
        match self {
            Ok(t) => t.respond_to(req),
            Err(e) => Err(e),
        }
    }
}

/// Responds as the value does, with the status code replaced.
impl<T: Responder> Responder for (T, u16) {
    open spec fn responds(self, req: HttpRequest, r: Result<Response, PipelineError>) -> bool {
        exists|inner: Result<Response, PipelineError>| {
            &&& #[trigger] self.0.responds(req, inner)
            &&& match inner {
                Ok(res) => r == Ok::<Response, PipelineError>(Response { status: self.1, ..res }),
                Err(e) => r == Err::<Response, PipelineError>(e),
            }
        }
    }

    fn respond_to(self, req: &HttpRequest) -> (r: Result<Response, PipelineError>) {
        let (t, status) = self;
        let inner = t.respond_to(req);
        let ghost g = inner;
        let r = match inner {
            Ok(res) => Ok(Response { status, ..res }),
            Err(e) => Err(e),
        };
        assert(t.responds(*req, g));
        r
    }
}

/// Text: 200, plain text in UTF-8.
impl Responder for String {
    open spec fn responds(self, req: HttpRequest, r: Result<Response, PipelineError>) -> bool {
        r matches Ok(res) && is_ok_with(res, spec_text_plain_utf8(), encode_utf8(self@))
    }

    fn respond_to(self, req: &HttpRequest) -> (r: Result<Response, PipelineError>) {
        let body = copy_bytes_slice(self.as_str().as_bytes());
        Ok(ok_with(text_plain_utf8(), body))
    }
}

/// Text: 200, plain text in UTF-8.
impl Responder for &'static str {
    open spec fn responds(self, req: HttpRequest, r: Result<Response, PipelineError>) -> bool {
        r matches Ok(res) && is_ok_with(res, spec_text_plain_utf8(), encode_utf8(self@))
    }

    fn respond_to(self, req: &HttpRequest) -> (r: Result<Response, PipelineError>) {
        let body = copy_bytes_slice(self.as_bytes());
        Ok(ok_with(text_plain_utf8(), body))
    }
}

/// Bytes: 200, an octet stream.
impl Responder for Vec<u8> {
    open spec fn responds(self, req: HttpRequest, r: Result<Response, PipelineError>) -> bool {
        r matches Ok(res) && is_ok_with(res, spec_octet_stream(), self@)
    }

    fn respond_to(self, req: &HttpRequest) -> (r: Result<Response, PipelineError>) {
        Ok(ok_with(octet_stream(), self))
    }
}

/// Either branch responds as its value does.
impl<A: Responder, B: Responder> Responder for Either<A, B> {
    open spec fn responds(self, req: HttpRequest, r: Result<Response, PipelineError>) -> bool {
        match self {
            Either::A(a) => a.responds(req, r),
            Either::B(b) => b.responds(req, r),
        }
    }

    fn respond_to(self, req: &HttpRequest) -> (r: Result<Response, PipelineError>) {
        match self {
            Either::A(a) => a.respond_to(req),
            Either::B(b) => b.respond_to(req),
        }
    }
}

/// Form data: 200, URL-encoded, with the encoded pairs as body.
impl Responder for Form<Vec<(String, String)>> {
    open spec fn responds(self, req: HttpRequest, r: Result<Response, PipelineError>) -> bool {
        r matches Ok(res) && is_ok_with(res, spec_form_urlencoded_type(), encode_utf8(form_text(pairs_view(self.0@))))
            && form_pairs(res.body@) == Some(pairs_view(self.0@))
    }

    fn respond_to(self, req: &HttpRequest) -> (r: Result<Response, PipelineError>) {
        match encode_form(&self.0) {
            Ok(body) => Ok(ok_with(form_urlencoded_type(), body)),
            Err(e) => Err(e),
        }
    }
}

/// Overrides the status code and sets headers on whatever `responder` produces. A
/// header that could not be built is kept as `error` and reported when the response
/// is made.
pub struct CustomResponder<T> {
    pub responder: T,
    pub status: Option<u16>,
    pub headers: Vec<(Vec<u8>, Vec<u8>)>,
    pub error: Option<PipelineError>,
}

impl<T: Responder> CustomResponder<T> {
    /// Wraps `responder` with nothing overridden.
    pub fn new(responder: T) -> (r: CustomResponder<T>)
        ensures
            r.responder == responder,
            r.status is None,
            r.headers@.len() == 0,
            r.error is None,
    {
        CustomResponder { responder, status: None, headers: Vec::new(), error: None }
    }

    /// Overrides the status code.
    pub fn with_status(self, status: u16) -> (r: CustomResponder<T>)
        ensures
            r == (CustomResponder { status: Some(status), ..self }),
    {
        CustomResponder { status: Some(status), ..self }
    }

    /// Adds a header. An invalid name or value is recorded as the error to report.
    pub fn with_header(self, key: &str, value: &str) -> (r: CustomResponder<T>)
        ensures
            r.responder == self.responder,
            r.status == self.status,
            match header_name_of(encode_utf8(key@)) {
                Some(name) => if forall|i: int| 0 <= i < encode_utf8(value@).len() ==> header_value_byte(#[trigger] encode_utf8(value@)[i]) {
                    headers_view(r.headers@) == headers_view(self.headers@).push((name, encode_utf8(value@)))
                        && r.error == self.error
                } else {
                    r.headers == self.headers && (r.error matches Some(e) && e.status == STATUS_BAD_REQUEST)
                },
                None => r.headers == self.headers && (r.error matches Some(e) && e.status == STATUS_BAD_REQUEST),
            },
    {
        let CustomResponder { responder, status, mut headers, error } = self;
        match parse_header_name(key.as_bytes()) {
            Some(name) => {
                let v = value.as_bytes();
                if header_value_valid(v) {
                    let ghost before = headers_view(headers@);
                    headers.push((name, copy_bytes_slice(v)));
                    assert(headers_view(headers@) =~= before.push((name@, v@)));
                    CustomResponder { responder, status, headers, error }
                } else {
                    CustomResponder { responder, status, headers, error: Some(PipelineError::new(STATUS_BAD_REQUEST, "Invalid header value")) }
                }
            },
            None => CustomResponder {
                responder,
                status,
                headers,
                error: Some(PipelineError::new(STATUS_BAD_REQUEST, "Invalid header name")),
            },
        }
    }
}

/// The recorded header error first; else the wrapped response with the status replaced
/// (if set) and each added header set in turn, replacing earlier values of its name.
impl<T: Responder> Responder for CustomResponder<T> {
    open spec fn responds(self, req: HttpRequest, r: Result<Response, PipelineError>) -> bool {
        match self.error {
            Some(e) => r == Err::<Response, PipelineError>(e),
            None => exists|inner: Result<Response, PipelineError>| {
                &&& #[trigger] self.responder.responds(req, inner)
                &&& match inner {
                    Err(e) => r == Err::<Response, PipelineError>(e),
                    Ok(res) => r matches Ok(out) && out.status == (match self.status {
                        Some(s) => s,
                        None => res.status,
                    }) && headers_view(out.headers@) == set_headers(headers_view(res.headers@), headers_view(self.headers@))
                        && out.body == res.body && out.encoding == res.encoding,
                }
            },
        }
    }

    fn respond_to(self, req: &HttpRequest) -> (r: Result<Response, PipelineError>) {
        let CustomResponder { responder, status, headers, error } = self;
        if let Some(e) = error {
            return Err(e);
        }
        let inner = responder.respond_to(req);
        let ghost g = inner;
        assert(responder.responds(*req, g));
        let mut res = match inner {
            Ok(res) => res,
            Err(e) => {
                return Err(e);
            },
        };
        let ghost res0 = res;
        if let Some(s) = status {
            res.status = s;
        }
        let ghost hv = headers_view(headers@);
        let mut i: usize = 0;
        assert(hv.subrange(0, 0) =~= Seq::<(Seq<u8>, Seq<u8>)>::empty());
        while i < headers.len()
            invariant
                i <= headers.len(),
                hv == headers_view(headers@),
                headers_view(res.headers@) == set_headers(headers_view(res0.headers@), hv.subrange(0, i as int)),
                res.body == res0.body,
                res.encoding == res0.encoding,
                res.status == (match status {
                    Some(s) => s,
                    None => res0.status,
                }),
            decreases headers.len() - i,
        {
            assert(hv.subrange(0, i + 1).drop_last() =~= hv.subrange(0, i as int));
            let name = copy_bytes(&headers[i].0);
            let value = copy_bytes(&headers[i].1);
            insert_header(&mut res.headers, name, value);
            i = i + 1;
        }
        assert(hv.subrange(0, hv.len() as int) =~= hv);
        Ok(res)
    }
}

/// Pairs sent as a form response body and read back by form extraction come back
/// unchanged, however the body is split into chunks, for a request that declares it as
/// URL-encoded without a charset, with no declared length or one within the limit, and
/// a body within the limit.
pub proof fn lemma_form_round_trip(
    v: Vec<(String, String)>,
    req: HttpRequest,
    res: Response,
    chunks: Seq<Vec<u8>>,
    limit: usize,
    r: Result<Vec<(String, String)>, UrlencodedError>,
)
    requires
        Form(v).responds(req, Ok(res)),
        form_setup(headers_view(req.headers@)) matches Ok((len, cs)) && cs is None
            && (len matches Some(l) ==> l <= effective_limit(limit)),
        payload_bytes(chunks) == res.body@,
        res.body@.len() <= effective_limit(limit),
        form_result(headers_view(req.headers@), chunks, limit, r),
    ensures
        r matches Ok(out) && pairs_view(out@) == pairs_view(v@),
{
    lemma_gather_within(chunks, effective_limit(limit));
}

} // verus!
