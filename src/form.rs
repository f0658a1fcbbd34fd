//! URL-encoded form bodies: extraction with size limits and charsets, and encoding
//! for responses.
use vstd::prelude::*;
use vstd::utf8::encode_utf8;
use crate::extract::FromRequest;
use crate::message::{
    all_visible_ascii, copy_bytes_slice, header_in, headers_view, payload_bytes, HttpRequest, Payload, STATUS_BAD_REQUEST, STATUS_LENGTH_REQUIRED, STATUS_PAYLOAD_TOO_LARGE,
};
use crate::names::{
    content_length_name, content_type_name, form_urlencoded_type, spec_content_length_name,
    spec_content_type_name, spec_form_urlencoded_type,
};
use crate::text::{
    decimal_of, eq_ignore_case, eq_ignore_case_exec, lemma_split_on_nonempty, parse_usize,
    split_exec, split_on, trim, trim_exec,
};

verus! {

#[verifier::external_type_specification]
#[verifier::external_body]
pub struct ExSerError(serde_urlencoded::ser::Error);

/// Whether a charset label names an encoding that can decode a body.
pub uninterp spec fn charset_known(label: Seq<u8>) -> bool;

/// The text that `body` decodes to in the charset named by `label`; none for an
/// unknown label or a body that is malformed in that charset.
pub uninterp spec fn charset_decode(label: Seq<u8>, body: Seq<u8>) -> Option<Seq<char>>;

/// The name-value pairs that a URL-encoded byte string decodes to, if it decodes.
pub uninterp spec fn form_pairs(body: Seq<u8>) -> Option<Seq<(Seq<char>, Seq<char>)>>;

/// The URL encoding of a list of name-value pairs.
pub uninterp spec fn form_text(pairs: Seq<(Seq<char>, Seq<char>)>) -> Seq<char>;

/// A list of string pairs as sequences of characters.
pub open spec fn pairs_view(v: Seq<(String, String)>) -> Seq<(Seq<char>, Seq<char>)> {
    v.map_values(|p: (String, String)| (p.0@, p.1@))
}

/// Relies on `encoding_rs::Encoding::for_label_no_replacement`: whether a charset label
/// names an encoding (unknown labels and those that map to the replacement encoding
/// do not).
#[verifier::external_body]
fn lookup_charset(label: &[u8]) -> (r: bool)
    ensures
        r == charset_known(label@),
{
    encoding_rs::Encoding::for_label_no_replacement(label).is_some()
}

/// Relies on `encoding_rs::Encoding::for_label_no_replacement` to turn the label into its
/// encoding, and on that encoding's `decode_without_bom_handling_and_without_replacement`:
/// the text of `body`, or none if the label is unknown or `body` is malformed in it. The
/// decoder panics only when the output size overflows, which the bound on the input
/// rules out.
#[verifier::external_body]
fn decode_in_charset(label: &[u8], body: &[u8]) -> (r: Option<String>)
    requires
        body@.len() <= usize::MAX / 8,
    ensures
        match r {
            Some(t) => charset_decode(label@, body@) == Some(t@),
            None => charset_decode(label@, body@) is None,
        },
{
    encoding_rs::Encoding::for_label_no_replacement(label)
        .and_then(|enc| enc.decode_without_bom_handling_and_without_replacement(body))
        .map(|t| t.into_owned())
}

/// Relies on `serde_urlencoded::from_bytes` into `Vec<(String, String)>`: the
/// name-value pairs of a URL-encoded byte string, in order.
#[verifier::external_body]
fn decode_pairs(body: &[u8]) -> (r: Option<Vec<(String, String)>>)
    ensures
        match r {
            Some(v) => form_pairs(body@) == Some(pairs_view(v@)),
            None => form_pairs(body@) is None,
        },
{
    serde_urlencoded::from_bytes::<Vec<(String, String)>>(body).ok()
}

/// Relies on `serde_urlencoded::to_string` of `Vec<(String, String)>`: the URL encoding
/// of the pairs, which `from_bytes` decodes back to the same pairs (names and values
/// are percent-encoded byte for byte, spaces as `+`, and decoding reverses both). A
/// sequence of string pairs always serializes: the pair serializer fails only on
/// tuples that are not pairs.
#[verifier::external_body]
fn encode_pairs(pairs: &Vec<(String, String)>) -> (r: Result<String, serde_urlencoded::ser::Error>)
    ensures
        r is Ok,
        r matches Ok(s) ==> s@ == form_text(pairs_view(pairs@)),
        r matches Ok(s) ==> form_pairs(encode_utf8(s@)) == Some(pairs_view(pairs@)),
{
    serde_urlencoded::to_string(pairs)
}

/// Why a URL-encoded body was refused.
#[derive(Clone, Copy, Debug, PartialEq, Eq, Structural)]
pub enum UrlencodedError {
    /// The body is larger than `limit` bytes; `size` is the declared or accumulated size.
    Overflow { size: usize, limit: usize },
    /// The content length header cannot be read as a number.
    UnknownLength,
    /// The content type is not URL-encoded form data, or names an unknown charset.
    ContentType,
    /// The body does not decode.
    Parse,
}

impl UrlencodedError {
    /// The status code of the error response for this error.
    pub open spec fn status(self) -> u16 {
        match self {
            UrlencodedError::Overflow { .. } => STATUS_PAYLOAD_TOO_LARGE,
            UrlencodedError::UnknownLength => STATUS_LENGTH_REQUIRED,
            _ => STATUS_BAD_REQUEST,
        }
    }

    /// The message of the error response for this error.
    pub open spec fn message(self) -> Seq<char> {
        match self {
            UrlencodedError::Overflow { .. } => "Urlencoded payload size is bigger than allowed"@,
            UrlencodedError::UnknownLength => "Payload size is not known"@,
            UrlencodedError::ContentType => "Content type error"@,
            UrlencodedError::Parse => "Parse error"@,
        }
    }

    /// The uniform error for this error.
    pub fn into_error(self) -> (r: crate::message::PipelineError)
        ensures
            r.status == self.status(),
            r.message@ == self.message(),
    {
        match self {
            UrlencodedError::Overflow { .. } => crate::message::PipelineError::new(
                STATUS_PAYLOAD_TOO_LARGE,
                "Urlencoded payload size is bigger than allowed",
            ),
            UrlencodedError::UnknownLength => crate::message::PipelineError::new(STATUS_LENGTH_REQUIRED, "Payload size is not known"),
            UrlencodedError::ContentType => crate::message::PipelineError::new(STATUS_BAD_REQUEST, "Content type error"),
            UrlencodedError::Parse => crate::message::PipelineError::new(STATUS_BAD_REQUEST, "Parse error"),
        }
    }
}

/// The ceiling on any URL-encoded body, whatever limit is configured.
pub const FORM_HARD_LIMIT: usize = 32_768;

/// The form body limit used when the route configures none.
pub const FORM_DEFAULT_LIMIT: usize = 16_384;

/// The media type of a content type header value: the part before the first `;`,
/// trimmed; empty when the header is absent or does not read as text.
pub open spec fn content_type_essence(hs: Seq<(Seq<u8>, Seq<u8>)>) -> Seq<u8> {
    match header_in(hs, spec_content_type_name()) {
        Some(v) => if all_visible_ascii(v) {
            trim(split_on(v, 59u8)[0])
        } else {
            Seq::empty()
        },
        None => Seq::empty(),
    }
}

/// `charset` spelled as bytes.
pub open spec fn spec_charset() -> Seq<u8> {
    seq![99u8, 104u8, 97u8, 114u8, 115u8, 101u8, 116u8]
}

/// The value of the first `charset=...` among media type parameters.
pub open spec fn charset_in(params: Seq<Seq<u8>>) -> Option<Seq<u8>>
    decreases params.len(),
{
    if params.len() == 0 {
        None
    } else {
        let kv = split_on(params[0], 61u8);
        if kv.len() >= 2 && eq_ignore_case(trim(kv[0]), spec_charset()) {
            Some(trim(kv[1]))
        } else {
            charset_in(params.drop_first())
        }
    }
}

/// The charset that the content type header names, if any.
pub open spec fn content_charset(hs: Seq<(Seq<u8>, Seq<u8>)>) -> Option<Seq<u8>> {
    match header_in(hs, spec_content_type_name()) {
        Some(v) => if all_visible_ascii(v) {
            charset_in(split_on(v, 59u8).drop_first())
        } else {
            None
        },
        None => None,
    }
}

/// What the content length header declares: no length when absent, an error when it
/// is not a number that fits in `usize`, an overflow when it exceeds the hard ceiling.
pub open spec fn declared_length(hs: Seq<(Seq<u8>, Seq<u8>)>) -> Result<Option<usize>, UrlencodedError> {
    match header_in(hs, spec_content_length_name()) {
        None => Ok(None),
        Some(v) => if all_visible_ascii(v) && decimal_of(v) is Some && decimal_of(v).unwrap() <= usize::MAX {
            let l = decimal_of(v).unwrap() as usize;
            if l > FORM_HARD_LIMIT {
                Err(UrlencodedError::Overflow { size: l, limit: FORM_HARD_LIMIT })
            } else {
                Ok(Some(l))
            }
        } else {
            Err(UrlencodedError::UnknownLength)
        },
    }
}

/// How a request head sets up form decoding: the declared length and charset, or the
/// error that refuses it before any byte of the body is read.
pub open spec fn form_setup(hs: Seq<(Seq<u8>, Seq<u8>)>) -> Result<(Option<usize>, Option<Seq<u8>>), UrlencodedError> {
    if !eq_ignore_case(content_type_essence(hs), spec_form_urlencoded_type()) {
        Err(UrlencodedError::ContentType)
    } else if content_charset(hs) matches Some(c) && !charset_known(c) {
        Err(UrlencodedError::ContentType)
    } else {
        match declared_length(hs) {
            Err(e) => Err(e),
            Ok(len) => Ok((len, content_charset(hs))),
        }
    }
}

/// The limit that governs a body: the configured one, or the hard ceiling if lower.
pub open spec fn effective_limit(limit: usize) -> usize {
    if limit < FORM_HARD_LIMIT {
        limit
    } else {
        FORM_HARD_LIMIT
    }
}

/// `n`, or `usize::MAX` if it does not fit.
pub open spec fn saturate(n: nat) -> usize {
    if n > usize::MAX {
        usize::MAX
    } else {
        n as usize
    }
}

/// The body gathered from `chunks` under `limit`: all bytes, or the running total at
/// the first chunk that takes it past the limit.
pub open spec fn gather(chunks: Seq<Vec<u8>>, limit: usize) -> Result<Seq<u8>, nat>
    decreases chunks.len(),
{
    if chunks.len() == 0 {
        Ok(Seq::empty())
    } else {
        match gather(chunks.drop_last(), limit) {
            Err(n) => Err(n),
            Ok(buf) => if buf.len() + chunks.last()@.len() > limit {
                Err(buf.len() + chunks.last()@.len())
            } else {
                Ok(buf + chunks.last()@)
            },
        }
    }
}

/// The outcome of decoding a body's pairs.
pub open spec fn parsed(p: Option<Seq<(Seq<char>, Seq<char>)>>, r: Result<Vec<(String, String)>, UrlencodedError>) -> bool {
    match p {
        Some(v) => r matches Ok(out) && pairs_view(out@) == v,
        None => r == Err::<Vec<(String, String)>, UrlencodedError>(UrlencodedError::Parse),
    }
}

/// A URL-encoded body on its way to being decoded: refused already, or waiting for
/// its stream under a limit.
pub enum UrlEncoded {
    Error(UrlencodedError),
    Body {
        stream: Payload,
        limit: usize,
        length: Option<usize>,
        charset: Option<Vec<u8>>,
    },
}

/// An optional byte vector as an optional byte sequence.
pub open spec fn opt_bytes(o: Option<Vec<u8>>) -> Option<Seq<u8>> {
    match o {
        Some(v) => Some(v@),
        None => None,
    }
}

/// The outcome of decoding a gathered body `buf`: UTF-8 pairs without a charset,
/// otherwise the pairs of its text in the charset.
pub open spec fn decoded(charset: Option<Seq<u8>>, buf: Seq<u8>, r: Result<Vec<(String, String)>, UrlencodedError>) -> bool {
    match charset {
        None => parsed(form_pairs(buf), r),
        Some(c) => match charset_decode(c, buf) {
            None => r == Err::<Vec<(String, String)>, UrlencodedError>(UrlencodedError::Parse),
            Some(t) => parsed(form_pairs(encode_utf8(t)), r),
        },
    }
}

/// The value of the first header called `name`, if it reads as text.
fn text_header<'a>(req: &'a HttpRequest, name: &[u8]) -> (r: Option<&'a Vec<u8>>)
    ensures
        r matches Some(v) ==> header_in(headers_view(req.headers@), name@) == Some(v@) && all_visible_ascii(v@),
        r is None ==> header_in(headers_view(req.headers@), name@) is None
            || !all_visible_ascii(header_in(headers_view(req.headers@), name@).unwrap()),
{
    match req.header(name) {
        Some(v) => {
            let mut i: usize = 0;
            while i < v.len()
                invariant
                    i <= v.len(),
                    header_in(headers_view(req.headers@), name@) == Some(v@),
                    forall|j: int| 0 <= j < i ==> crate::message::is_visible_ascii(#[trigger] v@[j]),
                decreases v.len() - i,
            {
                let b = v[i];
                if !((32u8 <= b && b < 127u8) || b == 9u8) {
                    assert(!crate::message::is_visible_ascii(v@[i as int]));
                    assert(!all_visible_ascii(v@));
                    return None;
                }
                i = i + 1;
            }
            Some(v)
        },
        None => None,
    }
}

/// The media type of the request's content type; see `content_type_essence`.
fn essence_of(req: &HttpRequest) -> (r: Vec<u8>)
    ensures
        r@ == content_type_essence(headers_view(req.headers@)),
{
    let name = content_type_name();
    match text_header(req, name.as_slice()) {
        Some(v) => {
            let parts = split_exec(v.as_slice(), 59u8);
            proof {
                lemma_split_on_nonempty(v@, 59u8);
            }
            trim_exec(parts[0].as_slice())
        },
        None => Vec::new(),
    }
}

/// The charset the request's content type names; see `content_charset`.
fn charset_of(req: &HttpRequest) -> (r: Option<Vec<u8>>)
    ensures
        match r {
            Some(c) => content_charset(headers_view(req.headers@)) == Some(c@),
            None => content_charset(headers_view(req.headers@)) is None,
        },
{
    let name = content_type_name();
    let v = match text_header(req, name.as_slice()) {
        Some(v) => v,
        None => {
            return None;
        },
    };
    let parts = split_exec(v.as_slice(), 59u8);
    proof {
        lemma_split_on_nonempty(v@, 59u8);
    }
    let ghost all = split_on(v@, 59u8);
    let ghost params = all.drop_first();
    let charset: Vec<u8> = vec![99u8, 104, 97, 114, 115, 101, 116];
    assert(charset@ =~= spec_charset());
    let mut i: usize = 1;
    assert(params.subrange(0, params.len() as int) =~= params);
    while i < parts.len()
        invariant
            1 <= i <= parts.len(),
            header_in(headers_view(req.headers@), spec_content_type_name()) == Some(v@),
            all_visible_ascii(v@),
            all == split_on(v@, 59u8),
            parts@.len() == all.len(),
            all.len() >= 1,
            params == all.drop_first(),
            forall|k: int| 0 <= k < parts@.len() ==> #[trigger] parts@[k]@ == all[k],
            charset@ == spec_charset(),
            charset_in(params) == charset_in(params.subrange(i - 1, params.len() as int)),
        decreases parts.len() - i,
    {
        let ghost rest = params.subrange(i - 1, params.len() as int);
        assert(rest.drop_first() =~= params.subrange(i as int, params.len() as int));
        assert(rest[0] == all[i as int]);
        let kv = split_exec(parts[i].as_slice(), 61u8);
        if kv.len() >= 2 {
            let key = trim_exec(kv[0].as_slice());
            if eq_ignore_case_exec(key.as_slice(), charset.as_slice()) {
                let value = trim_exec(kv[1].as_slice());
                assert(charset_in(rest) == Some(value@));
                return Some(value);
            }
        }
        i = i + 1;
    }
    None
}

/// The declared content length; see `declared_length`.
fn length_of(req: &HttpRequest) -> (r: Result<Option<usize>, UrlencodedError>)
    ensures
        r == declared_length(headers_view(req.headers@)),
{
    let name = content_length_name();
    match req.header(name.as_slice()) {
        None => Ok(None),
        Some(v) => {
            match text_header(req, name.as_slice()) {
                None => Err(UrlencodedError::UnknownLength),
                Some(t) => match parse_usize(t.as_slice()) {
                    None => Err(UrlencodedError::UnknownLength),
                    Some(l) => {
                        if l > FORM_HARD_LIMIT {
                            Err(UrlencodedError::Overflow { size: l, limit: FORM_HARD_LIMIT })
                        } else {
                            Ok(Some(l))
                        }
                    },
                },
            }
        },
    }
}

impl UrlEncoded {
    /// Sets up decoding of the request's body: checks the content type and charset, and
    /// a declared length against the hard ceiling. Only once those pass is the body
    /// taken out of `payload`.
    pub fn new(req: &HttpRequest, payload: &mut Payload) -> (r: UrlEncoded)
        ensures
            match form_setup(headers_view(req.headers@)) {
                Err(e) => r == UrlEncoded::Error(e) && final(payload).chunks@ == old(payload).chunks@,
                Ok((len, cs)) => r matches UrlEncoded::Body { stream, limit, length, charset } && stream.chunks@
                    == old(payload).chunks@ && limit == FORM_HARD_LIMIT && length == len && opt_bytes(charset)
                    == cs && final(payload).chunks@.len() == 0,
            },
    {
        let essence = essence_of(req);
        let form_type = form_urlencoded_type();
        if !eq_ignore_case_exec(essence.as_slice(), form_type.as_slice()) {
            return UrlEncoded::Error(UrlencodedError::ContentType);
        }
        let charset = charset_of(req);
        if let Some(label) = &charset {
            if !lookup_charset(label.as_slice()) {
                return UrlEncoded::Error(UrlencodedError::ContentType);
            }
        }
        let length = match length_of(req) {
            Ok(len) => len,
            Err(e) => {
                return UrlEncoded::Error(e);
            },
        };
        let stream = payload.take();
        UrlEncoded::Body { stream, limit: FORM_HARD_LIMIT, length, charset }
    }

    /// Sets the body limit; the hard ceiling still applies when `limit` is above it.
    /// A declared length over the limit is refused at once, before any byte of the body
    /// is read.
    pub fn limit(self, limit: usize) -> (r: UrlEncoded)
        ensures
            match self {
                UrlEncoded::Error(e) => r == UrlEncoded::Error(e),
                UrlEncoded::Body { stream, length, charset, .. } => match length {
                    Some(len) if len > effective_limit(limit) => r == UrlEncoded::Error(
                        UrlencodedError::Overflow { size: len, limit: effective_limit(limit) },
                    ),
                    _ => r == UrlEncoded::Body { stream, limit: effective_limit(limit), length, charset },
                },
            },
    {
        let limit = if limit < FORM_HARD_LIMIT { limit } else { FORM_HARD_LIMIT };
        match self {
            UrlEncoded::Body { stream, length, charset, .. } => {
                if let Some(len) = length {
                    if len > limit {
                        return UrlEncoded::Error(UrlencodedError::Overflow { size: len, limit });
                    }
                }
                UrlEncoded::Body { stream, limit, length, charset }
            },
            UrlEncoded::Error(e) => UrlEncoded::Error(e),
        }
    }

    /// Reads the stream to its end and decodes the pairs. The body is refused as soon
    /// as the running total passes the limit.
    /// The limit of a waiting body never exceeds the hard ceiling, as `new` and `limit`
    /// make it.
    pub fn resolve(self) -> (r: Result<Vec<(String, String)>, UrlencodedError>)
        requires
            self matches UrlEncoded::Body { limit, .. } ==> limit <= FORM_HARD_LIMIT,
        ensures
            match self {
                UrlEncoded::Error(e) => r == Err::<Vec<(String, String)>, UrlencodedError>(e),
                UrlEncoded::Body { stream, limit, charset, .. } => match gather(stream.chunks@, limit) {
                    Err(n) => r == Err::<Vec<(String, String)>, UrlencodedError>(
                        UrlencodedError::Overflow { size: saturate(n), limit },
                    ),
                    Ok(buf) => decoded(opt_bytes(charset), buf, r),
                },
            },
    {
        match self {
            UrlEncoded::Error(e) => Err(e),
            UrlEncoded::Body { stream, limit, charset, .. } => {
                proof {
                    lemma_gather_total(stream.chunks@, limit);
                }
                let buf = match gather_chunks(&stream, limit) {
                    Ok(buf) => buf,
                    Err(size) => {
                        return Err(UrlencodedError::Overflow { size, limit });
                    },
                };
                match charset {
                    None => parse_pairs(buf.as_slice()),
                    Some(label) => {
                        let text = decode_in_charset(label.as_slice(), buf.as_slice());
                        parse_decoded(text)
                    },
                }
            },
        }
    }
}

/// The outcome of decoding the form body `chunks` of a request with headers `hs` under
/// the configured `limit`.
pub open spec fn form_result(
    hs: Seq<(Seq<u8>, Seq<u8>)>,
    chunks: Seq<Vec<u8>>,
    limit: usize,
    r: Result<Vec<(String, String)>, UrlencodedError>,
) -> bool {
    let eff = effective_limit(limit);
    match form_setup(hs) {
        Err(e) => r == Err::<Vec<(String, String)>, UrlencodedError>(e),
        Ok((len, cs)) => if len is Some && len.unwrap() > eff {
            r == Err::<Vec<(String, String)>, UrlencodedError>(
                UrlencodedError::Overflow { size: len.unwrap(), limit: eff },
            )
        } else {
            match gather(chunks, eff) {
                Err(n) => r == Err::<Vec<(String, String)>, UrlencodedError>(
                    UrlencodedError::Overflow { size: saturate(n), limit: eff },
                ),
                Ok(buf) => decoded(cs, buf, r),
            }
        },
    }
}

/// What is left of the body after form decoding: all of it when the head was refused,
/// nothing otherwise.
pub open spec fn form_leaves(hs: Seq<(Seq<u8>, Seq<u8>)>, before: Seq<Vec<u8>>, after: Seq<Vec<u8>>) -> bool {
    if form_setup(hs) is Err {
        after == before
    } else {
        after.len() == 0
    }
}

/// Decodes the request's URL-encoded body under `limit`.
pub fn extract_form(req: &HttpRequest, payload: &mut Payload, limit: usize) -> (r: Result<Vec<(String, String)>, UrlencodedError>)
    ensures
        form_result(headers_view(req.headers@), old(payload).chunks@, limit, r),
        form_leaves(headers_view(req.headers@), old(payload).chunks@, final(payload).chunks@),
{
    UrlEncoded::new(req, payload).limit(limit).resolve()
}

/// URL-encoded form data: extracted from a request body, or sent as a response body.
pub struct Form<T>(pub T);

impl<T> Form<T> {
    /// The inner value.
    pub fn into_inner(self) -> (r: T)
        ensures
            r == self.0,
    {
        self.0
    }
}

/// How form extraction is configured for a route: the body limit and an optional
/// handler that turns a refusal into the error response, given the request.
pub struct FormConfig<F> {
    pub limit: usize,
    pub err_handler: Option<F>,
}

impl<F> FormConfig<F> {
    /// Changes the body limit.
    pub fn limit(self, limit: usize) -> (r: FormConfig<F>)
        ensures
            r.limit == limit,
            r.err_handler == self.err_handler,
    {
        FormConfig { limit, err_handler: self.err_handler }
    }

    /// Installs a custom error handler.
    pub fn error_handler<G>(self, f: G) -> (r: FormConfig<G>)
        ensures
            r.limit == self.limit,
            r.err_handler == Some(f),
    {
        FormConfig { limit: self.limit, err_handler: Some(f) }
    }
}

impl<F> Default for FormConfig<F> {
    fn default() -> (r: FormConfig<F>)
        ensures
            r.limit == FORM_DEFAULT_LIMIT,
            r.err_handler is None,
    {
        FormConfig { limit: FORM_DEFAULT_LIMIT, err_handler: None }
    }
}

/// `out` is the uniform error for the refusal `e`.
pub open spec fn is_form_error(e: UrlencodedError, out: crate::message::PipelineError) -> bool {
    out.status == e.status() && out.message@ == e.message()
}

impl Form<Vec<(String, String)>> {
    /// Extracts the pairs of the request's URL-encoded body under `config`: its limit,
    /// and its error handler for refusals.
    pub fn from_request_with<F: Fn(UrlencodedError, &HttpRequest) -> crate::message::PipelineError>(
        req: &HttpRequest,
        payload: &mut Payload,
        config: &FormConfig<F>,
    ) -> (r: Result<Form<Vec<(String, String)>>, crate::message::PipelineError>)
        requires
            config.err_handler matches Some(f) ==> forall|e: UrlencodedError, q: &HttpRequest| f.requires((e, q)),
        ensures
            form_leaves(headers_view(req.headers@), old(payload).chunks@, final(payload).chunks@),
            exists|inner: Result<Vec<(String, String)>, UrlencodedError>| {
                &&& #[trigger] form_result(headers_view(req.headers@), old(payload).chunks@, config.limit, inner)
                &&& match inner {
                    Ok(v) => r == Ok::<Form<Vec<(String, String)>>, crate::message::PipelineError>(Form(v)),
                    Err(e) => r matches Err(out) && match config.err_handler {
                        Some(f) => f.ensures((e, req), out),
                        None => is_form_error(e, out),
                    },
                }
            },
    {
        let inner = extract_form(req, payload, config.limit);
        let ghost g = inner;
        let r = match inner {
            Ok(v) => Ok(Form(v)),
            Err(e) => match &config.err_handler {
                Some(f) => Err(f(e, req)),
                None => Err(e.into_error()),
            },
        };
        assert(form_result(headers_view(req.headers@), old(payload).chunks@, config.limit, g));
        r
    }
}

/// The limit that form extraction applies to a request: the one its route registered,
/// or the default.
pub open spec fn route_form_limit(req: HttpRequest) -> usize {
    match req.form_limit {
        Some(l) => l,
        None => FORM_DEFAULT_LIMIT,
    }
}

/// How a route turns a refused form body into its error response, consulting the
/// request. `maps` relates a refusal and the request to the error made of them; a
/// handler that states nothing of its errors keeps the default, which admits any.
pub trait FormErrorHandler {
    open spec fn maps(e: UrlencodedError, req: HttpRequest, out: crate::message::PipelineError) -> bool {
        true
    }

    fn handle(e: UrlencodedError, req: &HttpRequest) -> (out: crate::message::PipelineError)
        ensures
            Self::maps(e, *req, out),
    ;
}

/// The default handling: each refusal becomes its uniform error.
pub struct DefaultFormErrors;

impl FormErrorHandler for DefaultFormErrors {
    open spec fn maps(e: UrlencodedError, req: HttpRequest, out: crate::message::PipelineError) -> bool {
        is_form_error(e, out)
    }

    fn handle(e: UrlencodedError, req: &HttpRequest) -> (out: crate::message::PipelineError) {
        e.into_error()
    }
}

/// Form data extracted on a route whose refusals go through the handler `H`.
pub struct FormWith<H> {
    pub form: Form<Vec<(String, String)>>,
    pub handler: std::marker::PhantomData<H>,
}

impl<H> FormWith<H> {
    /// The extracted pairs.
    pub fn into_inner(self) -> (r: Vec<(String, String)>)
        ensures
            r == self.form.0,
    {
        self.form.0
    }
}

/// Form extraction under the route's limit; refusals go through the route's handler.
impl<H: FormErrorHandler> FromRequest for FormWith<H> {
    type Rejection = crate::message::PipelineError;

    open spec fn extracts(
        req: HttpRequest,
        before: Seq<Vec<u8>>,
        r: Result<FormWith<H>, crate::message::PipelineError>,
        after: Seq<Vec<u8>>,
    ) -> bool {
        &&& form_leaves(headers_view(req.headers@), before, after)
        &&& exists|inner: Result<Vec<(String, String)>, UrlencodedError>| {
            &&& #[trigger] form_result(headers_view(req.headers@), before, route_form_limit(req), inner)
            &&& match inner {
                Ok(v) => r matches Ok(f) && f.form.0 == v,
                Err(e) => r matches Err(out) && H::maps(e, req, out),
            }
        }
    }

    open spec fn converts(e: crate::message::PipelineError, out: crate::message::PipelineError) -> bool {
        out == e
    }

    fn from_request(req: &HttpRequest, payload: &mut Payload) -> (r: Result<FormWith<H>, crate::message::PipelineError>) {
        let limit = match req.form_limit {
            Some(l) => l,
            None => FORM_DEFAULT_LIMIT,
        };
        assert(limit == route_form_limit(*req));
        let inner = extract_form(req, payload, limit);
        let ghost g = inner;
        let r = match inner {
            Ok(v) => Ok(FormWith { form: Form(v), handler: std::marker::PhantomData }),
            Err(e) => Err(H::handle(e, req)),
        };
        assert(form_result(headers_view(req.headers@), old(payload).chunks@, limit, g));
        r
    }

    fn error_into(e: crate::message::PipelineError) -> (r: crate::message::PipelineError) {
        e
    }
}

/// Form extraction under the route's limit; refusals become their uniform errors.
impl FromRequest for Form<Vec<(String, String)>> {
    type Rejection = crate::message::PipelineError;

    open spec fn extracts(
        req: HttpRequest,
        before: Seq<Vec<u8>>,
        r: Result<Form<Vec<(String, String)>>, crate::message::PipelineError>,
        after: Seq<Vec<u8>>,
    ) -> bool {
        &&& form_leaves(headers_view(req.headers@), before, after)
        &&& exists|inner: Result<Vec<(String, String)>, UrlencodedError>| {
            &&& #[trigger] form_result(headers_view(req.headers@), before, route_form_limit(req), inner)
            &&& match inner {
                Ok(v) => r == Ok::<Form<Vec<(String, String)>>, crate::message::PipelineError>(Form(v)),
                Err(e) => r matches Err(out) && is_form_error(e, out),
            }
        }
    }

    open spec fn converts(e: crate::message::PipelineError, out: crate::message::PipelineError) -> bool {
        out == e
    }

    fn from_request(req: &HttpRequest, payload: &mut Payload) -> (r: Result<Form<Vec<(String, String)>>, crate::message::PipelineError>) {
        let limit = match req.form_limit {
            Some(l) => l,
            None => FORM_DEFAULT_LIMIT,
        };
        assert(limit == route_form_limit(*req));
        let inner = extract_form(req, payload, limit);
        let ghost g = inner;
        let r = match inner {
            Ok(v) => Ok(Form(v)),
            Err(e) => Err(e.into_error()),
        };
        assert(form_result(headers_view(req.headers@), old(payload).chunks@, limit, g));
        r
    }

    fn error_into(e: crate::message::PipelineError) -> (r: crate::message::PipelineError) {
        e
    }
}

/// A declared length over the limit refuses the body, whatever its bytes: the overflow
/// names the declared size and the limit.
pub proof fn lemma_declared_overflow(
    hs: Seq<(Seq<u8>, Seq<u8>)>,
    chunks: Seq<Vec<u8>>,
    limit: usize,
    r: Result<Vec<(String, String)>, UrlencodedError>,
    l: usize,
)
    requires
        form_setup(hs) matches Ok((Some(len), _)) && len == l,
        l > effective_limit(limit),
        form_result(hs, chunks, limit, r),
    ensures
        r == Err::<Vec<(String, String)>, UrlencodedError>(
            UrlencodedError::Overflow { size: l, limit: effective_limit(limit) },
        ),
{
}

/// The bytes of the first `k` chunks.
pub open spec fn prefix_len(chunks: Seq<Vec<u8>>, k: int) -> nat {
    payload_bytes(chunks.subrange(0, k)).len()
}

/// When gathering overflows, the reported total is that of the first chunks whose
/// total passes the limit: the chunks before them stayed within it.
pub proof fn lemma_gather_overflow_point(chunks: Seq<Vec<u8>>, limit: usize)
    requires
        gather(chunks, limit) is Err,
    ensures
        exists|k: int| 0 <= k < chunks.len() && prefix_len(chunks, k) <= limit
            && #[trigger] prefix_len(chunks, k + 1) == gather(chunks, limit)->Err_0
            && gather(chunks, limit)->Err_0 > limit,
    decreases chunks.len(),
{
    lemma_gather_total(chunks.drop_last(), limit);
    assert(chunks.subrange(0, chunks.len() - 1) =~= chunks.drop_last());
    assert(chunks.subrange(0, chunks.len() as int) =~= chunks);
    match gather(chunks.drop_last(), limit) {
        Err(n) => {
            lemma_gather_overflow_point(chunks.drop_last(), limit);
            let k = choose|k: int| 0 <= k < chunks.drop_last().len() && prefix_len(chunks.drop_last(), k) <= limit
                && #[trigger] prefix_len(chunks.drop_last(), k + 1) == n && n > limit;
            assert(chunks.drop_last().subrange(0, k) =~= chunks.subrange(0, k));
            assert(chunks.drop_last().subrange(0, k + 1) =~= chunks.subrange(0, k + 1));
            assert(prefix_len(chunks, k + 1) == n);
        },
        Ok(buf) => {
            let k = chunks.len() - 1;
            assert(chunks.subrange(0, k + 1).drop_last() =~= chunks.subrange(0, k));
            assert(prefix_len(chunks, k + 1) == gather(chunks, limit)->Err_0);
        },
    }
}

/// Chunks whose bytes fit within the limit gather to all their bytes.
pub proof fn lemma_gather_within(chunks: Seq<Vec<u8>>, limit: usize)
    requires
        payload_bytes(chunks).len() <= limit,
    ensures
        gather(chunks, limit) == Ok::<Seq<u8>, nat>(payload_bytes(chunks)),
    decreases chunks.len(),
{
    if chunks.len() > 0 {
        assert(payload_bytes(chunks) == payload_bytes(chunks.drop_last()) + chunks.last()@);
        lemma_gather_within(chunks.drop_last(), limit);
    }
}

/// A gathered body is all the bytes of the chunks, within the limit.
pub proof fn lemma_gather_total(chunks: Seq<Vec<u8>>, limit: usize)
    ensures
        gather(chunks, limit) matches Ok(buf) ==> buf == payload_bytes(chunks) && buf.len() <= limit,
    decreases chunks.len(),
{
    if chunks.len() > 0 {
        lemma_gather_total(chunks.drop_last(), limit);
    }
}

/// Gathers the chunks of `stream` under `limit`; see `gather`.
pub fn gather_chunks(stream: &Payload, limit: usize) -> (r: Result<Vec<u8>, usize>)
    ensures
        match gather(stream.chunks@, limit) {
            Ok(buf) => r matches Ok(b) && b@ == buf,
            Err(n) => r == Err::<Vec<u8>, usize>(saturate(n)),
        },
{
    let mut buf: Vec<u8> = Vec::new();
    let mut i: usize = 0;
    let ghost cs = stream.chunks@;
    assert(cs.subrange(0, 0) =~= Seq::<Vec<u8>>::empty());
    while i < stream.chunks.len()
        invariant
            i <= cs.len(),
            cs == stream.chunks@,
            gather(cs.subrange(0, i as int), limit) == Ok::<Seq<u8>, nat>(buf@),
            buf@.len() <= limit,
        decreases cs.len() - i,
    {
        let chunk = &stream.chunks[i];
        assert(cs.subrange(0, i + 1).drop_last() =~= cs.subrange(0, i as int));
        assert(cs.subrange(0, i + 1).last() == cs[i as int]);
        if chunk.len() > limit - buf.len() {
            let size: usize = if chunk.len() <= usize::MAX - buf.len() {
                buf.len() + chunk.len()
            } else {
                usize::MAX
            };
            assert(gather(cs.subrange(0, i + 1), limit) == Err::<Seq<u8>, nat>((buf@.len() + chunk@.len()) as nat));
            proof {
                lemma_gather_stops(cs, limit, i + 1);
            }
            return Err(size);
        }
        let mut j: usize = 0;
        let ghost start = buf@;
        while j < chunk.len()
            invariant
                j <= chunk@.len(),
                buf@ == start + chunk@.subrange(0, j as int),
            decreases chunk.len() - j,
        {
            buf.push(chunk[j]);
            j = j + 1;
        }
        assert(chunk@.subrange(0, chunk@.len() as int) =~= chunk@);
        i = i + 1;
    }
    assert(cs.subrange(0, cs.len() as int) =~= cs);
    Ok(buf)
}

/// Once gathering a prefix of the chunks overflows, gathering all of them overflows
/// with the same total.
pub proof fn lemma_gather_stops(cs: Seq<Vec<u8>>, limit: usize, k: int)
    requires
        0 <= k <= cs.len(),
        gather(cs.subrange(0, k), limit) is Err,
    ensures
        gather(cs, limit) == gather(cs.subrange(0, k), limit),
    decreases cs.len() - k,
{
    if k < cs.len() {
        assert(cs.subrange(0, k + 1).drop_last() =~= cs.subrange(0, k));
        lemma_gather_stops(cs, limit, k + 1);
    } else {
        assert(cs.subrange(0, k) =~= cs);
    }
}

/// Decodes the pairs of a UTF-8 body.
pub fn parse_pairs(body: &[u8]) -> (r: Result<Vec<(String, String)>, UrlencodedError>)
    ensures
        parsed(form_pairs(body@), r),
{
    match decode_pairs(body) {
        Some(v) => Ok(v),
        None => Err(UrlencodedError::Parse),
    }
}

/// Decodes the pairs of a body already turned into text, or refuses a body that did
/// not decode in its charset.
pub fn parse_decoded(text: Option<String>) -> (r: Result<Vec<(String, String)>, UrlencodedError>)
    ensures
        match text {
            None => r == Err::<Vec<(String, String)>, UrlencodedError>(UrlencodedError::Parse),
            Some(t) => parsed(form_pairs(encode_utf8(t@)), r),
        },
{
    match text {
        None => Err(UrlencodedError::Parse),
        Some(t) => parse_pairs(t.as_str().as_bytes()),
    }
}

/// URL-encodes pairs into a response body.
pub fn encode_form(pairs: &Vec<(String, String)>) -> (r: Result<Vec<u8>, crate::message::PipelineError>)
    ensures
        r is Ok,
        r matches Ok(b) ==> b@ == encode_utf8(form_text(pairs_view(pairs@))),
        r matches Ok(b) ==> form_pairs(b@) == Some(pairs_view(pairs@)),
{
    match encode_pairs(pairs) {
        Ok(s) => Ok(copy_bytes_slice(s.as_str().as_bytes())),
        Err(_) => Err(crate::message::PipelineError::new(crate::message::STATUS_INTERNAL_SERVER_ERROR, "Form encoding error")),
    }
}

} // verus!
