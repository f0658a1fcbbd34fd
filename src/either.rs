//! A value of one of two types: extracted by trying one type, then the other, on the
//! same buffered body.
use vstd::prelude::*;
use crate::extract::{FromRequest, BODY_LIMIT};
use crate::form::gather;
use crate::message::{copy_bytes, payload_bytes, HttpRequest, Payload, PipelineError, STATUS_PAYLOAD_TOO_LARGE};

verus! {

/// One of two values.
pub enum Either<A, B> {
    A(A),
    B(B),
}

impl<A, B> Either<A, B> {
    /// The first-branch value.
    pub fn unwrap_left(self) -> (r: A)
        requires
            self is A,
        ensures
            self == Either::<A, B>::A(r),
    {
        match self {
            Either::A(a) => a,
            Either::B(_) => {
                vstd::pervasive::unreached()
            },
        }
    }

    /// The second-branch value.
    pub fn unwrap_right(self) -> (r: B)
        requires
            self is B,
        ensures
            self == Either::<A, B>::B(r),
    {
        match self {
            Either::B(b) => b,
            Either::A(_) => {
                vstd::pervasive::unreached()
            },
        }
    }
}

/// Why an `Either` could not be extracted: the body could not be buffered, or both
/// extractions failed (with both errors).
pub enum EitherExtractError<A, B> {
    Bytes(PipelineError),
    Extract(A, B),
}

/// `p` is a fresh body stream that yields exactly `buf`.
pub open spec fn fresh_view(p: Seq<Vec<u8>>, buf: Seq<u8>) -> bool {
    payload_bytes(p) == buf && p.len() <= 1
}

/// The whole body is buffered first; `A` is tried on one fresh view of it and, if it
/// fails, `B` on another.
impl<A: FromRequest, B: FromRequest> FromRequest for Either<A, B> {
    type Rejection = EitherExtractError<A::Rejection, B::Rejection>;

    open spec fn extracts(
        req: HttpRequest,
        before: Seq<Vec<u8>>,
        r: Result<Either<A, B>, EitherExtractError<A::Rejection, B::Rejection>>,
        after: Seq<Vec<u8>>,
    ) -> bool {
        &&& after.len() == 0
        &&& match gather(before, BODY_LIMIT) {
            Err(_) => r matches Err(EitherExtractError::Bytes(e)) && e.status == STATUS_PAYLOAD_TOO_LARGE,
            Ok(buf) => exists|pa: Seq<Vec<u8>>, ra: Result<A, A::Rejection>, pa2: Seq<Vec<u8>>| {
                &&& fresh_view(pa, buf)
                &&& #[trigger] A::extracts(req, pa, ra, pa2)
                &&& match ra {
                    Ok(a) => r == Ok::<Either<A, B>, EitherExtractError<A::Rejection, B::Rejection>>(Either::A(a)),
                    Err(ea) => exists|pb: Seq<Vec<u8>>, rb: Result<B, B::Rejection>, pb2: Seq<Vec<u8>>| {
                        &&& fresh_view(pb, buf)
                        &&& #[trigger] B::extracts(req, pb, rb, pb2)
                        &&& match rb {
                            Ok(b) => r == Ok::<Either<A, B>, EitherExtractError<A::Rejection, B::Rejection>>(Either::B(b)),
                            Err(eb) => r == Err::<Either<A, B>, EitherExtractError<A::Rejection, B::Rejection>>(
                                EitherExtractError::Extract(ea, eb),
                            ),
                        }
                    },
                }
            },
        }
    }

    open spec fn converts(e: EitherExtractError<A::Rejection, B::Rejection>, out: PipelineError) -> bool {
        match e {
            EitherExtractError::Bytes(x) => out == x,
            EitherExtractError::Extract(a, _) => A::converts(a, out),
        }
    }

    fn from_request(req: &HttpRequest, payload: &mut Payload) -> (r: Result<Either<A, B>, EitherExtractError<A::Rejection, B::Rejection>>) {
        let bytes = match <Vec<u8> as FromRequest>::from_request(req, payload) {
            Ok(b) => b,
            Err(e) => {
                return Err(EitherExtractError::Bytes(e));
            },
        };
        let fallback = copy_bytes(&bytes);
        let mut pa = Payload::from_bytes(bytes);
        let ghost pa0 = pa.chunks@;
        let ra = A::from_request(req, &mut pa);
        let ghost gra = ra;
        let ea = match ra {
            Ok(a) => {
                assert(A::extracts(*req, pa0, gra, pa.chunks@));
                return Ok(Either::A(a));
            },
            Err(ea) => ea,
        };
        let mut pb = Payload::from_bytes(fallback);
        let ghost pb0 = pb.chunks@;
        let rb = B::from_request(req, &mut pb);
        let ghost grb = rb;
        assert(A::extracts(*req, pa0, gra, pa.chunks@));
        assert(B::extracts(*req, pb0, grb, pb.chunks@));
        match rb {
            Ok(b) => Ok(Either::B(b)),
            Err(eb) => Err(EitherExtractError::Extract(ea, eb)),
        }
    }

    fn error_into(e: EitherExtractError<A::Rejection, B::Rejection>) -> (r: PipelineError) {
        match e {
            EitherExtractError::Bytes(x) => x,
            EitherExtractError::Extract(a, _) => A::error_into(a),
        }
    }
}

/// A body that cannot be buffered gives the buffering error, and `B` is used only where
/// `A` failed on the same bytes.
pub proof fn lemma_either_fallback<A: FromRequest, B: FromRequest>(
    req: HttpRequest,
    before: Seq<Vec<u8>>,
    r: Result<Either<A, B>, EitherExtractError<A::Rejection, B::Rejection>>,
    after: Seq<Vec<u8>>,
)
    requires
        <Either<A, B> as FromRequest>::extracts(req, before, r, after),
    ensures
        gather(before, BODY_LIMIT) is Err ==> r matches Err(EitherExtractError::Bytes(_)),
        r matches Ok(Either::B(_)) ==> exists|pa: Seq<Vec<u8>>, ra: Result<A, A::Rejection>, pa2: Seq<Vec<u8>>|
            fresh_view(pa, gather(before, BODY_LIMIT)->Ok_0) && #[trigger] A::extracts(req, pa, ra, pa2) && ra is Err,
{
    if gather(before, BODY_LIMIT) is Ok {
        let buf = gather(before, BODY_LIMIT)->Ok_0;
        let (pa, ra, pa2) = choose|pa: Seq<Vec<u8>>, ra: Result<A, A::Rejection>, pa2: Seq<Vec<u8>>| {
            &&& fresh_view(pa, buf)
            &&& #[trigger] A::extracts(req, pa, ra, pa2)
            &&& match ra {
                Ok(a) => r == Ok::<Either<A, B>, EitherExtractError<A::Rejection, B::Rejection>>(Either::A(a)),
                Err(ea) => exists|pb: Seq<Vec<u8>>, rb: Result<B, B::Rejection>, pb2: Seq<Vec<u8>>| {
                    &&& fresh_view(pb, buf)
                    &&& #[trigger] B::extracts(req, pb, rb, pb2)
                    &&& match rb {
                        Ok(b) => r == Ok::<Either<A, B>, EitherExtractError<A::Rejection, B::Rejection>>(Either::B(b)),
                        Err(eb) => r == Err::<Either<A, B>, EitherExtractError<A::Rejection, B::Rejection>>(
                            EitherExtractError::Extract(ea, eb),
                        ),
                    }
                },
            }
        };
        assert(A::extracts(req, pa, ra, pa2));
    }
}

} // verus!
