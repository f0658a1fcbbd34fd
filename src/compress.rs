//! Response compression: content-encoding negotiation from `Accept-Encoding`.
use vstd::prelude::*;
use crate::message::{all_visible_ascii, header_in, headers_view, is_visible_ascii, PipelineError, HttpRequest};
use crate::names::{accept_encoding_name, spec_accept_encoding_name};
use crate::service::{Service, ServiceRequest, ServiceResponse, Transform};
use crate::text::{
    eq_ignore_case, eq_ignore_case_exec, is_digit, lemma_split_on_nonempty, split_exec, split_on,
    strip_spaces, strip_spaces_exec, trim, trim_exec,
};

verus! {

/// A content encoding; `Auto` lets the client's preference decide.
#[derive(Clone, Copy, Debug, PartialEq, Eq, Structural)]
pub enum ContentEncoding {
    Auto,
    Br,
    Deflate,
    Gzip,
    Identity,
}

impl ContentEncoding {
    /// The weight an encoding gets when the client names it without a `q` value,
    /// in thousandths.
    pub open spec fn default_quality(self) -> u32 {
        match self {
            ContentEncoding::Br => 1100,
            ContentEncoding::Gzip => 1000,
            ContentEncoding::Deflate => 900,
            _ => 100,
        }
    }

    /// The weight an encoding gets when the client names it without a `q` value,
    /// in thousandths.
    pub fn quality(&self) -> (r: u32)
        ensures
            r == self.default_quality(),
    {
        match self {
            ContentEncoding::Br => 1100,
            ContentEncoding::Gzip => 1000,
            ContentEncoding::Deflate => 900,
            _ => 100,
        }
    }

    /// The encoding that a token names, compared without case; unknown names are
    /// identity.
    pub fn from_token(t: &[u8]) -> (r: ContentEncoding)
        ensures
            r == token_encoding(t@),
    {
        let s = trim_exec(t);
        let br: Vec<u8> = vec![98u8, 114];
        let gzip: Vec<u8> = vec![103u8, 122, 105, 112];
        let deflate: Vec<u8> = vec![100u8, 101, 102, 108, 97, 116, 101];
        assert(br@ =~= spec_br());
        assert(gzip@ =~= spec_gzip());
        assert(deflate@ =~= spec_deflate());
        if eq_ignore_case_exec(s.as_slice(), br.as_slice()) {
            ContentEncoding::Br
        } else if eq_ignore_case_exec(s.as_slice(), gzip.as_slice()) {
            ContentEncoding::Gzip
        } else if eq_ignore_case_exec(s.as_slice(), deflate.as_slice()) {
            ContentEncoding::Deflate
        } else {
            ContentEncoding::Identity
        }
    }
}

pub open spec fn spec_br() -> Seq<u8> {
    seq![98u8, 114u8]
}

pub open spec fn spec_gzip() -> Seq<u8> {
    seq![103u8, 122u8, 105u8, 112u8]
}

pub open spec fn spec_deflate() -> Seq<u8> {
    seq![100u8, 101u8, 102u8, 108u8, 97u8, 116u8, 101u8]
}

/// The encoding a token names: `br`, `gzip` or `deflate` in any case, after trimming;
/// anything else is identity.
pub open spec fn token_encoding(t: Seq<u8>) -> ContentEncoding {
    let s = trim(t);
    if eq_ignore_case(s, spec_br()) {
        ContentEncoding::Br
    } else if eq_ignore_case(s, spec_gzip()) {
        ContentEncoding::Gzip
    } else if eq_ignore_case(s, spec_deflate()) {
        ContentEncoding::Deflate
    } else {
        ContentEncoding::Identity
    }
}

/// Digit `i` of `s` as a number, or 0 past its end.
pub open spec fn digit_at(s: Seq<u8>, i: int) -> u32 {
    if 0 <= i < s.len() {
        (s[i] - 48) as u32
    } else {
        0
    }
}

/// A q-value (`0`, `0.5`, `1.000`, ...) in thousandths; anything malformed, or above
/// one, weighs 0.
pub open spec fn qvalue(s: Seq<u8>) -> u32 {
    if s.len() >= 1 && (s[0] == 48u8 || s[0] == 49u8) && (s.len() == 1 || (s[1] == 46u8
        && s.len() <= 5 && forall|i: int| 2 <= i < s.len() ==> is_digit(#[trigger] s[i]))) {
        let v = 1000 * digit_at(s, 0) + 100 * digit_at(s, 2) + 10 * digit_at(s, 3) + digit_at(s, 4);
        if v <= 1000 {
            v as u32
        } else {
            0
        }
    } else {
        0
    }
}

/// The weight that a `q=...` parameter gives, in thousandths; 0 when malformed.
pub open spec fn param_quality(p: Seq<u8>) -> u32 {
    if p.len() >= 2 && (p[0] == 113u8 || p[0] == 81u8) && p[1] == 61u8 {
        qvalue(p.subrange(2, p.len() as int))
    } else {
        0
    }
}

/// One entry of an `Accept-Encoding` list: an encoding and its weight in thousandths.
#[derive(Clone, Copy, Debug, PartialEq, Eq, Structural)]
pub struct AcceptEncoding {
    pub encoding: ContentEncoding,
    pub quality: u32,
}

/// The entry that a token `encoding[;q=value]` stands for.
pub open spec fn candidate_of(tag: Seq<u8>) -> AcceptEncoding {
    let parts = split_on(tag, 59u8);
    let encoding = token_encoding(parts[0]);
    let quality = if parts.len() == 1 {
        encoding.default_quality()
    } else {
        param_quality(parts[1])
    };
    AcceptEncoding { encoding, quality }
}

/// The entries of a header value: spaces removed, split at commas, in order.
pub open spec fn candidates_of(raw: Seq<u8>) -> Seq<AcceptEncoding> {
    split_on(strip_spaces(raw), 44u8).map_values(|t: Seq<u8>| candidate_of(t))
}

/// The index of the first entry of highest weight: the entry that a stable sort by
/// descending weight puts first.
pub open spec fn best_index(c: Seq<AcceptEncoding>) -> int
    decreases c.len(),
{
    if c.len() <= 1 {
        0
    } else {
        let b = best_index(c.drop_last());
        if c.last().quality > c[b].quality {
            c.len() - 1
        } else {
            b
        }
    }
}

/// The encoding chosen from the entries `c` under `mode`: in `Auto`, the encoding of
/// the first entry of highest weight; otherwise `mode` itself if some entry names it,
/// and identity if none does.
pub open spec fn select_encoding(c: Seq<AcceptEncoding>, mode: ContentEncoding) -> ContentEncoding {
    if mode == ContentEncoding::Auto {
        if c.len() == 0 {
            ContentEncoding::Identity
        } else {
            c[best_index(c)].encoding
        }
    } else if exists|i: int| 0 <= i < c.len() && (#[trigger] c[i]).encoding == mode {
        mode
    } else {
        ContentEncoding::Identity
    }
}

/// The encoding negotiated for a request with headers `hs`: identity when
/// `Accept-Encoding` is absent or does not read as text.
pub open spec fn negotiated(hs: Seq<(Seq<u8>, Seq<u8>)>, mode: ContentEncoding) -> ContentEncoding {
    match header_in(hs, spec_accept_encoding_name()) {
        Some(v) => if all_visible_ascii(v) {
            select_encoding(candidates_of(v), mode)
        } else {
            ContentEncoding::Identity
        },
        None => ContentEncoding::Identity,
    }
}

/// The entry chosen by `best_index` weighs at least as much as every entry, and more
/// than every entry before it.
pub proof fn lemma_best_index(c: Seq<AcceptEncoding>)
    requires
        c.len() >= 1,
    ensures
        0 <= best_index(c) < c.len(),
        forall|j: int| 0 <= j < c.len() ==> (#[trigger] c[j]).quality <= c[best_index(c)].quality,
        forall|j: int| 0 <= j < best_index(c) ==> (#[trigger] c[j]).quality < c[best_index(c)].quality,
    decreases c.len(),
{
    if c.len() > 1 {
        lemma_best_index(c.drop_last());
        let b = best_index(c.drop_last());
        assert forall|j: int| 0 <= j < c.len() - 1 implies #[trigger] c[j] == c.drop_last()[j] by {}
    }
}

/// A q-value in thousandths; see `qvalue`.
fn parse_qvalue(s: &[u8]) -> (r: u32)
    ensures
        r == qvalue(s@),
{
    let n = s.len();
    if n == 0 || !(s[0] == 48u8 || s[0] == 49u8) {
        return 0;
    }
    if n > 1 {
        if s[1] != 46u8 || n > 5 {
            return 0;
        }
        let mut i: usize = 2;
        while i < n
            invariant
                2 <= i <= n,
                n == s@.len(),
                forall|j: int| 2 <= j < i ==> is_digit(#[trigger] s@[j]),
            decreases n - i,
        {
            if s[i] < 48u8 || s[i] > 57u8 {
                assert(!is_digit(s@[i as int]));
                return 0;
            }
            i = i + 1;
        }
    }
    let d0: u32 = (s[0] - 48) as u32;
    let d2: u32 = if n > 2 { (s[2] - 48) as u32 } else { 0 };
    let d3: u32 = if n > 3 { (s[3] - 48) as u32 } else { 0 };
    let d4: u32 = if n > 4 { (s[4] - 48) as u32 } else { 0 };
    let v = 1000 * d0 + 100 * d2 + 10 * d3 + d4;
    if v <= 1000 {
        v
    } else {
        0
    }
}

/// The weight of a `q=...` parameter; see `param_quality`.
fn parse_param_quality(p: &[u8]) -> (r: u32)
    ensures
        r == param_quality(p@),
{
    if p.len() >= 2 && (p[0] == 113u8 || p[0] == 81u8) && p[1] == 61u8 {
        let mut rest: Vec<u8> = Vec::new();
        let mut i: usize = 2;
        while i < p.len()
            invariant
                2 <= i <= p.len(),
                rest@ == p@.subrange(2, i as int),
            decreases p.len() - i,
        {
            rest.push(p[i]);
            i = i + 1;
        }
        parse_qvalue(rest.as_slice())
    } else {
        0
    }
}

impl AcceptEncoding {
    /// The entry that one token `encoding[;q=value]` stands for.
    pub fn new(tag: &[u8]) -> (r: AcceptEncoding)
        ensures
            r == candidate_of(tag@),
    {
        let parts = split_exec(tag, 59u8);
        proof {
            lemma_split_on_nonempty(tag@, 59u8);
        }
        let encoding = ContentEncoding::from_token(parts[0].as_slice());
        let quality = if parts.len() == 1 {
            encoding.quality()
        } else {
            parse_param_quality(parts[1].as_slice())
        };
        AcceptEncoding { encoding, quality }
    }

    /// Chooses the encoding for a raw `Accept-Encoding` value under `encoding`
    /// (`Auto`, or the one encoding the middleware offers).
    pub fn parse(raw: &[u8], encoding: ContentEncoding) -> (r: ContentEncoding)
        ensures
            r == select_encoding(candidates_of(raw@), encoding),
    {
        let stripped = strip_spaces_exec(raw);
        let tokens = split_exec(stripped.as_slice(), 44u8);
        let ghost cands = candidates_of(raw@);
        proof {
            lemma_split_on_nonempty(strip_spaces(raw@), 44u8);
        }
        let mut best: usize = 0;
        let mut best_q: u32 = 0;
        let mut best_enc = ContentEncoding::Identity;
        let mut i: usize = 0;
        while i < tokens.len()
            invariant
                tokens@.len() == cands.len(),
                tokens@.len() >= 1,
                cands == candidates_of(raw@),
                forall|k: int| 0 <= k < tokens@.len() ==> #[trigger] tokens@[k]@ == split_on(strip_spaces(raw@), 44u8)[k],
                i <= tokens.len(),
                encoding != ContentEncoding::Auto ==> forall|k: int| 0 <= k < i ==> (#[trigger] cands[k]).encoding != encoding,
                i > 0 ==> best == best_index(cands.subrange(0, i as int)),
                i > 0 ==> best < i && best_q == cands[best as int].quality && best_enc == cands[best as int].encoding,
            decreases tokens.len() - i,
        {
            let c = AcceptEncoding::new(tokens[i].as_slice());
            assert(c == cands[i as int]);
            if encoding != ContentEncoding::Auto && c.encoding == encoding {
                return encoding;
            }
            let ghost pre = cands.subrange(0, i as int);
            let ghost cur = cands.subrange(0, i + 1);
            assert(cur.drop_last() =~= pre);
            if i > 0 {
                assert(cur[best as int] == pre[best as int]);
            }
            if i == 0 || c.quality > best_q {
                best = i;
                best_q = c.quality;
                best_enc = c.encoding;
            }
            i = i + 1;
        }
        assert(cands.subrange(0, cands.len() as int) =~= cands);
        if encoding == ContentEncoding::Auto {
            best_enc
        } else {
            ContentEncoding::Identity
        }
    }
}

/// Whether every byte of `v` is visible ASCII.
fn visible_ascii(v: &[u8]) -> (r: bool)
    ensures
        r == all_visible_ascii(v@),
{
    let mut i: usize = 0;
    while i < v.len()
        invariant
            i <= v.len(),
            forall|j: int| 0 <= j < i ==> is_visible_ascii(#[trigger] v@[j]),
        decreases v.len() - i,
    {
        let b = v[i];
        if !((32u8 <= b && b < 127u8) || b == 9u8) {
            assert(!is_visible_ascii(v@[i as int]));
            return false;
        }
        i = i + 1;
    }
    true
}

/// The encoding negotiated for `req` under `mode`.
pub fn negotiate(req: &HttpRequest, mode: ContentEncoding) -> (r: ContentEncoding)
    ensures
        r == negotiated(headers_view(req.headers@), mode),
{
    let name = accept_encoding_name();
    match req.header(name.as_slice()) {
        Some(v) => {
            if visible_ascii(v.as_slice()) {
                AcceptEncoding::parse(v.as_slice(), mode)
            } else {
                ContentEncoding::Identity
            }
        },
        None => ContentEncoding::Identity,
    }
}

/// The encoding a response goes out with: the one application code set on the
/// response, if any, else the negotiated one.
pub fn resolve_encoding(negotiated: ContentEncoding, set_by_response: Option<ContentEncoding>) -> (r: ContentEncoding)
    ensures
        r == match set_by_response {
            Some(e) => e,
            None => negotiated,
        },
{
    match set_by_response {
        Some(e) => e,
        None => negotiated,
    }
}

/// Middleware that compresses response bodies. `Auto` follows the client's
/// preference; any other encoding is used only where the client accepts it.
pub struct Compress {
    pub encoding: ContentEncoding,
}

impl Compress {
    /// Compression that offers `encoding`.
    pub fn new(encoding: ContentEncoding) -> (r: Compress)
        ensures
            r.encoding == encoding,
    {
        Compress { encoding }
    }

    /// Compression that follows the client's preference.
    pub fn auto() -> (r: Compress)
        ensures
            r.encoding == ContentEncoding::Auto,
    {
        Compress::new(ContentEncoding::Auto)
    }
}

impl Default for Compress {
    /// Compression that follows the client's preference.
    fn default() -> (r: Compress)
        ensures
            r.encoding == ContentEncoding::Auto,
    {
        Compress::auto()
    }
}

/// The compression service wrapped around `service`.
pub struct CompressMiddleware<S> {
    pub service: S,
    pub encoding: ContentEncoding,
}

/// `out` is `inner` with its body set to go out in the encoding resolved from the
/// negotiated one and the response's own choice.
pub open spec fn encoded(inner: ServiceResponse, negotiated_enc: ContentEncoding, out: ServiceResponse) -> bool {
    &&& out.req == inner.req
    &&& out.res.status == inner.res.status
    &&& out.res.headers == inner.res.headers
    &&& out.res.body == inner.res.body
    &&& out.res.encoding == Some(match inner.res.encoding {
        Some(e) => e,
        None => negotiated_enc,
    })
}

impl<S: Service<Request = ServiceRequest, Response = ServiceResponse, Failure = PipelineError>> Transform<S> for Compress {
    type Transform = CompressMiddleware<S>;
    type InitError = ();

    open spec fn builds(&self, inner: S, r: Result<CompressMiddleware<S>, ()>) -> bool {
        r == Ok::<CompressMiddleware<S>, ()>(CompressMiddleware { service: inner, encoding: self.encoding })
    }

    fn new_transform(&self, inner: S) -> (r: Result<CompressMiddleware<S>, ()>) {
        Ok(CompressMiddleware { service: inner, encoding: self.encoding })
    }
}

impl<S: Service<Request = ServiceRequest, Response = ServiceResponse, Failure = PipelineError>> Service for CompressMiddleware<S> {
    type Request = ServiceRequest;
    type Response = ServiceResponse;
    type Failure = PipelineError;

    open spec fn readiness(&self, r: Result<bool, PipelineError>) -> bool {
        self.service.readiness(r)
    }

    /// The encoding is negotiated from the request before the inner service runs; the
    /// response's own choice, known only after, overrides it.
    open spec fn serves(&self, req: ServiceRequest, res: Result<ServiceResponse, PipelineError>) -> bool {
        exists|inner: Result<ServiceResponse, PipelineError>| {
            &&& #[trigger] self.service.serves(req, inner)
            &&& match inner {
                Ok(ir) => res matches Ok(out) && encoded(ir, negotiated(headers_view(req.req.headers@), self.encoding), out),
                Err(e) => res == Err::<ServiceResponse, PipelineError>(e),
            }
        }
    }

    fn poll_ready(&self) -> (r: Result<bool, PipelineError>) {
        self.service.poll_ready()
    }

    fn call(&self, req: ServiceRequest) -> (r: Result<ServiceResponse, PipelineError>) {
        let enc = negotiate(&req.req, self.encoding);
        let ghost req0 = req;
        let inner = self.service.call(req);
        match inner {
            Ok(sr) => {
                let chosen = resolve_encoding(enc, sr.res.encoding);
                let ServiceResponse { req, res } = sr;
                let out = ServiceResponse { req, res: crate::message::Response { encoding: Some(chosen), ..res } };
                assert(encoded(sr, enc, out));
                Ok(out)
            },
            Err(e) => Err(e),
        }
    }
}

/// Middleware nests as layers of an onion: with one compression layer inside another,
/// the inner layer sees the inner service's response first and settles its encoding,
/// so the outer layer's own negotiation never applies.
pub proof fn lemma_inner_layer_settles_first<S: Service<Request = ServiceRequest, Response = ServiceResponse, Failure = PipelineError>>(
    m: CompressMiddleware<CompressMiddleware<S>>,
    req: ServiceRequest,
    res: Result<ServiceResponse, PipelineError>,
)
    requires
        m.serves(req, res),
        res is Ok,
    ensures
        exists|r0: Result<ServiceResponse, PipelineError>| {
            &&& #[trigger] m.service.service.serves(req, r0)
            &&& r0 is Ok
            &&& res->Ok_0.res.encoding == Some(match r0->Ok_0.res.encoding {
                Some(e) => e,
                None => negotiated(headers_view(req.req.headers@), m.service.encoding),
            })
            &&& res->Ok_0.res.body == r0->Ok_0.res.body
        },
{
    let mid = choose|inner: Result<ServiceResponse, PipelineError>| {
        &&& #[trigger] m.service.serves(req, inner)
        &&& match inner {
            Ok(ir) => res matches Ok(out) && encoded(ir, negotiated(headers_view(req.req.headers@), m.encoding), out),
            Err(e) => res == Err::<ServiceResponse, PipelineError>(e),
        }
    };
    let r0 = choose|inner: Result<ServiceResponse, PipelineError>| {
        &&& #[trigger] m.service.service.serves(req, inner)
        &&& match inner {
            Ok(ir) => mid matches Ok(out) && encoded(ir, negotiated(headers_view(req.req.headers@), m.service.encoding), out),
            Err(e) => mid == Err::<ServiceResponse, PipelineError>(e),
        }
    };
    assert(m.service.service.serves(req, r0));
}

/// The entry that `AcceptEncoding::parse` picks in `Auto` weighs at least as much as
/// every entry and more than every entry before it.
pub proof fn lemma_auto_picks_first_heaviest(raw: Seq<u8>)
    ensures
        ({
            let c = candidates_of(raw);
            &&& c.len() >= 1
            &&& select_encoding(c, ContentEncoding::Auto) == c[best_index(c)].encoding
            &&& forall|j: int| 0 <= j < c.len() ==> (#[trigger] c[j]).quality <= c[best_index(c)].quality
            &&& forall|j: int| 0 <= j < best_index(c) ==> (#[trigger] c[j]).quality < c[best_index(c)].quality
        }),
{
    lemma_split_on_nonempty(strip_spaces(raw), 44u8);
    lemma_best_index(candidates_of(raw));
}

} // verus!
