//! The extraction protocol: typed values taken from a request and its body, and the
//! combinators over `()`, `Option`, `Result` and tuples.
use vstd::prelude::*;
use crate::form::gather;
use crate::message::{HttpRequest, Payload, PipelineError, STATUS_PAYLOAD_TOO_LARGE};

verus! {

/// A type that can be taken from a request. `extracts` relates the request and the
/// body chunks before extraction to each outcome and the chunks left after it;
/// `converts` relates an extraction error to the uniform error it becomes.
pub trait FromRequest: Sized {
    type Rejection;

    spec fn extracts(req: HttpRequest, before: Seq<Vec<u8>>, r: Result<Self, Self::Rejection>, after: Seq<Vec<u8>>) -> bool;

    spec fn converts(e: Self::Rejection, out: PipelineError) -> bool;

    fn from_request(req: &HttpRequest, payload: &mut Payload) -> (r: Result<Self, Self::Rejection>)
        ensures
            Self::extracts(*req, old(payload).chunks@, r, final(payload).chunks@),
    ;

    fn error_into(e: Self::Rejection) -> (r: PipelineError)
        ensures
            Self::converts(e, r),
    ;
}

impl FromRequest for () {
    type Rejection = PipelineError;

    open spec fn extracts(req: HttpRequest, before: Seq<Vec<u8>>, r: Result<(), PipelineError>, after: Seq<Vec<u8>>) -> bool {
        r == Ok::<(), PipelineError>(()) && after == before
    }

    open spec fn converts(e: PipelineError, out: PipelineError) -> bool {
        out == e
    }

    fn from_request(req: &HttpRequest, payload: &mut Payload) -> (r: Result<(), PipelineError>) {
        Ok(())
    }

    fn error_into(e: PipelineError) -> (r: PipelineError) {
        e
    }
}

/// Optional extraction: a failure of `T` becomes `None`, never an error.
impl<T: FromRequest> FromRequest for Option<T> {
    type Rejection = PipelineError;

    open spec fn extracts(req: HttpRequest, before: Seq<Vec<u8>>, r: Result<Option<T>, PipelineError>, after: Seq<Vec<u8>>) -> bool {
        exists|inner: Result<T, T::Rejection>| {
            &&& #[trigger] T::extracts(req, before, inner, after)
            &&& r == Ok::<Option<T>, PipelineError>(match inner {
                Ok(t) => Some(t),
                Err(_) => None,
            })
        }
    }

    open spec fn converts(e: PipelineError, out: PipelineError) -> bool {
        out == e
    }

    fn from_request(req: &HttpRequest, payload: &mut Payload) -> (r: Result<Option<T>, PipelineError>) {
        let inner = T::from_request(req, payload);
        let ghost g = inner;
        let r = match inner {
            Ok(t) => Ok(Some(t)),
            Err(_) => Ok(None),
        };
        assert(T::extracts(*req, old(payload).chunks@, g, payload.chunks@));
        r
    }

    fn error_into(e: PipelineError) -> (r: PipelineError) {
        e
    }
}

/// Extraction that hands `T`'s outcome, success or error, to the handler.
impl<T: FromRequest> FromRequest for Result<T, T::Rejection> {
    type Rejection = PipelineError;

    open spec fn extracts(req: HttpRequest, before: Seq<Vec<u8>>, r: Result<Result<T, T::Rejection>, PipelineError>, after: Seq<Vec<u8>>) -> bool {
        exists|inner: Result<T, T::Rejection>| #[trigger] T::extracts(req, before, inner, after)
            && r == Ok::<Result<T, T::Rejection>, PipelineError>(inner)
    }

    open spec fn converts(e: PipelineError, out: PipelineError) -> bool {
        out == e
    }

    fn from_request(req: &HttpRequest, payload: &mut Payload) -> (r: Result<Result<T, T::Rejection>, PipelineError>) {
        let inner = T::from_request(req, payload);
        Ok(inner)
    }

    fn error_into(e: PipelineError) -> (r: PipelineError) {
        e
    }
}

/// One extraction, as a one-member tuple.
impl<A: FromRequest> FromRequest for (A,) {
    type Rejection = PipelineError;

    open spec fn extracts(req: HttpRequest, before: Seq<Vec<u8>>, r: Result<(A,), PipelineError>, after: Seq<Vec<u8>>) -> bool {
        exists|ra: Result<A, A::Rejection>| {
            &&& #[trigger] A::extracts(req, before, ra, after)
            &&& match ra {
                Err(e) => r matches Err(out) && A::converts(e, out),
                Ok(a) => r == Ok::<(A,), PipelineError>((a,)),
            }
        }
    }

    open spec fn converts(e: PipelineError, out: PipelineError) -> bool {
        out == e
    }

    fn from_request(req: &HttpRequest, payload: &mut Payload) -> (r: Result<(A,), PipelineError>) {
        let ra = A::from_request(req, payload);
        let ghost gra = ra;
        assert(A::extracts(*req, old(payload).chunks@, gra, payload.chunks@));
        match ra {
            Ok(a) => Ok((a,)),
            Err(e) => Err(A::error_into(e)),
        }
    }

    fn error_into(e: PipelineError) -> (r: PipelineError) {
        e
    }
}

/// Two extractions in order: `B` runs on what `A` left of the body, and only if `A`
/// succeeded.
impl<A: FromRequest, B: FromRequest> FromRequest for (A, B) {
    type Rejection = PipelineError;

    open spec fn extracts(req: HttpRequest, before: Seq<Vec<u8>>, r: Result<(A, B), PipelineError>, after: Seq<Vec<u8>>) -> bool {
        exists|ra: Result<A, A::Rejection>, mid: Seq<Vec<u8>>| {
            &&& #[trigger] A::extracts(req, before, ra, mid)
            &&& match ra {
                Err(e) => after == mid && (r matches Err(out) && A::converts(e, out)),
                Ok(a) => exists|rb: Result<B, B::Rejection>| {
                    &&& #[trigger] B::extracts(req, mid, rb, after)
                    &&& match rb {
                        Err(e) => r matches Err(out) && B::converts(e, out),
                        Ok(b) => r == Ok::<(A, B), PipelineError>((a, b)),
                    }
                },
            }
        }
    }

    open spec fn converts(e: PipelineError, out: PipelineError) -> bool {
        out == e
    }

    fn from_request(req: &HttpRequest, payload: &mut Payload) -> (r: Result<(A, B), PipelineError>) {
        let ghost before = payload.chunks@;
        let ra = A::from_request(req, payload);
        let ghost mid = payload.chunks@;
        let ghost gra = ra;
        let a = match ra {
            Ok(a) => a,
            Err(e) => {
                let out = A::error_into(e);
                assert(A::extracts(*req, before, gra, mid));
                return Err(out);
            },
        };
        let rb = B::from_request(req, payload);
        let ghost grb = rb;
        assert(A::extracts(*req, before, gra, mid));
        assert(B::extracts(*req, mid, grb, payload.chunks@));
        match rb {
            Ok(b) => Ok((a, b)),
            Err(e) => Err(B::error_into(e)),
        }
    }

    fn error_into(e: PipelineError) -> (r: PipelineError) {
        e
    }
}

/// Three extractions in order, each on what the one before left of the body; the
/// first failure ends extraction.
impl<A: FromRequest, B: FromRequest, C: FromRequest> FromRequest for (A, B, C) {
    type Rejection = PipelineError;

    open spec fn extracts(req: HttpRequest, before: Seq<Vec<u8>>, r: Result<(A, B, C), PipelineError>, after: Seq<Vec<u8>>) -> bool {
        exists|ra: Result<A, A::Rejection>, mid: Seq<Vec<u8>>| {
            &&& #[trigger] A::extracts(req, before, ra, mid)
            &&& match ra {
                Err(e) => after == mid && (r matches Err(out) && A::converts(e, out)),
                Ok(a) => exists|rb: Result<B, B::Rejection>, mid2: Seq<Vec<u8>>| {
                    &&& #[trigger] B::extracts(req, mid, rb, mid2)
                    &&& match rb {
                        Err(e) => after == mid2 && (r matches Err(out) && B::converts(e, out)),
                        Ok(b) => exists|rc: Result<C, C::Rejection>| {
                            &&& #[trigger] C::extracts(req, mid2, rc, after)
                            &&& match rc {
                                Err(e) => r matches Err(out) && C::converts(e, out),
                                Ok(c) => r == Ok::<(A, B, C), PipelineError>((a, b, c)),
                            }
                        },
                    }
                },
            }
        }
    }

    open spec fn converts(e: PipelineError, out: PipelineError) -> bool {
        out == e
    }

    fn from_request(req: &HttpRequest, payload: &mut Payload) -> (r: Result<(A, B, C), PipelineError>) {
        let ghost before = payload.chunks@;
        let ra = A::from_request(req, payload);
        let ghost mid = payload.chunks@;
        let ghost gra = ra;
        let a = match ra {
            Ok(a) => a,
            Err(e) => {
                let out = A::error_into(e);
                assert(A::extracts(*req, before, gra, mid));
                return Err(out);
            },
        };
        let rb = B::from_request(req, payload);
        let ghost mid2 = payload.chunks@;
        let ghost grb = rb;
        let b = match rb {
            Ok(b) => b,
            Err(e) => {
                let out = B::error_into(e);
                assert(A::extracts(*req, before, gra, mid));
                assert(B::extracts(*req, mid, grb, mid2));
                return Err(out);
            },
        };
        let rc = C::from_request(req, payload);
        let ghost grc = rc;
        assert(A::extracts(*req, before, gra, mid));
        assert(B::extracts(*req, mid, grb, mid2));
        assert(C::extracts(*req, mid2, grc, payload.chunks@));
        match rc {
            Ok(c) => Ok((a, b, c)),
            Err(e) => Err(C::error_into(e)),
        }
    }

    fn error_into(e: PipelineError) -> (r: PipelineError) {
        e
    }
}

// Longer tuples follow the same pattern, one member after the other.

impl<A: FromRequest, B: FromRequest, C: FromRequest, D: FromRequest> FromRequest for (A, B, C, D) {
    type Rejection = PipelineError;

    open spec fn extracts(req: HttpRequest, before: Seq<Vec<u8>>, r: Result<(A, B, C, D), PipelineError>, after: Seq<Vec<u8>>) -> bool {
        exists|r0: Result<A, A::Rejection>, s1: Seq<Vec<u8>>| {
            &&& #[trigger] A::extracts(req, before, r0, s1)
            &&& match r0 {
                Err(e) => after == s1 && (r matches Err(out) && A::converts(e, out)),
                Ok(v0) => exists|r1: Result<B, B::Rejection>, s2: Seq<Vec<u8>>| {
                    &&& #[trigger] B::extracts(req, s1, r1, s2)
                    &&& match r1 {
                        Err(e) => after == s2 && (r matches Err(out) && B::converts(e, out)),
                        Ok(v1) => exists|r2: Result<C, C::Rejection>, s3: Seq<Vec<u8>>| {
                            &&& #[trigger] C::extracts(req, s2, r2, s3)
                            &&& match r2 {
                                Err(e) => after == s3 && (r matches Err(out) && C::converts(e, out)),
                                Ok(v2) => exists|r3: Result<D, D::Rejection>| {
                                    &&& #[trigger] D::extracts(req, s3, r3, after)
                                    &&& match r3 {
                                        Err(e) => r matches Err(out) && D::converts(e, out),
                                        Ok(v3) => r == Ok::<(A, B, C, D), PipelineError>((v0, v1, v2, v3)),
                                    }
                                },
                            }
                        },
                    }
                },
            }
        }
    }

    open spec fn converts(e: PipelineError, out: PipelineError) -> bool {
        out == e
    }

    fn from_request(req: &HttpRequest, payload: &mut Payload) -> (r: Result<(A, B, C, D), PipelineError>) {
        let ghost s0 = payload.chunks@;
        let r0 = A::from_request(req, payload);
        let ghost s1 = payload.chunks@;
        let ghost g0 = r0;
        let v0 = match r0 {
            Ok(v) => v,
            Err(e) => {
                let out = A::error_into(e);
                assert(A::extracts(*req, s0, g0, s1));
                return Err(out);
            },
        };
        let r1 = B::from_request(req, payload);
        let ghost s2 = payload.chunks@;
        let ghost g1 = r1;
        let v1 = match r1 {
            Ok(v) => v,
            Err(e) => {
                let out = B::error_into(e);
                assert(A::extracts(*req, s0, g0, s1));
                assert(B::extracts(*req, s1, g1, s2));
                return Err(out);
            },
        };
        let r2 = C::from_request(req, payload);
        let ghost s3 = payload.chunks@;
        let ghost g2 = r2;
        let v2 = match r2 {
            Ok(v) => v,
            Err(e) => {
                let out = C::error_into(e);
                assert(A::extracts(*req, s0, g0, s1));
                assert(B::extracts(*req, s1, g1, s2));
                assert(C::extracts(*req, s2, g2, s3));
                return Err(out);
            },
        };
        let r3 = D::from_request(req, payload);
        let ghost s4 = payload.chunks@;
        let ghost g3 = r3;
        let v3 = match r3 {
            Ok(v) => v,
            Err(e) => {
                let out = D::error_into(e);
                assert(A::extracts(*req, s0, g0, s1));
                assert(B::extracts(*req, s1, g1, s2));
                assert(C::extracts(*req, s2, g2, s3));
                assert(D::extracts(*req, s3, g3, s4));
                return Err(out);
            },
        };
        assert(A::extracts(*req, s0, g0, s1));
        assert(B::extracts(*req, s1, g1, s2));
        assert(C::extracts(*req, s2, g2, s3));
        assert(D::extracts(*req, s3, g3, s4));
        Ok((v0, v1, v2, v3))
    }

    fn error_into(e: PipelineError) -> (r: PipelineError) {
        e
    }
}

impl<A: FromRequest, B: FromRequest, C: FromRequest, D: FromRequest, E: FromRequest> FromRequest for (A, B, C, D, E) {
    type Rejection = PipelineError;

    open spec fn extracts(req: HttpRequest, before: Seq<Vec<u8>>, r: Result<(A, B, C, D, E), PipelineError>, after: Seq<Vec<u8>>) -> bool {
        exists|r0: Result<A, A::Rejection>, s1: Seq<Vec<u8>>| {
            &&& #[trigger] A::extracts(req, before, r0, s1)
            &&& match r0 {
                Err(e) => after == s1 && (r matches Err(out) && A::converts(e, out)),
                Ok(v0) => exists|r1: Result<B, B::Rejection>, s2: Seq<Vec<u8>>| {
                    &&& #[trigger] B::extracts(req, s1, r1, s2)
                    &&& match r1 {
                        Err(e) => after == s2 && (r matches Err(out) && B::converts(e, out)),
                        Ok(v1) => exists|r2: Result<C, C::Rejection>, s3: Seq<Vec<u8>>| {
                            &&& #[trigger] C::extracts(req, s2, r2, s3)
                            &&& match r2 {
                                Err(e) => after == s3 && (r matches Err(out) && C::converts(e, out)),
                                Ok(v2) => exists|r3: Result<D, D::Rejection>, s4: Seq<Vec<u8>>| {
                                    &&& #[trigger] D::extracts(req, s3, r3, s4)
                                    &&& match r3 {
                                        Err(e) => after == s4 && (r matches Err(out) && D::converts(e, out)),
                                        Ok(v3) => exists|r4: Result<E, E::Rejection>| {
                                            &&& #[trigger] E::extracts(req, s4, r4, after)
                                            &&& match r4 {
                                                Err(e) => r matches Err(out) && E::converts(e, out),
                                                Ok(v4) => r == Ok::<(A, B, C, D, E), PipelineError>((v0, v1, v2, v3, v4)),
                                            }
                                        },
                                    }
                                },
                            }
                        },
                    }
                },
            }
        }
    }

    open spec fn converts(e: PipelineError, out: PipelineError) -> bool {
        out == e
    }

    fn from_request(req: &HttpRequest, payload: &mut Payload) -> (r: Result<(A, B, C, D, E), PipelineError>) {
        let ghost s0 = payload.chunks@;
        let r0 = A::from_request(req, payload);
        let ghost s1 = payload.chunks@;
        let ghost g0 = r0;
        let v0 = match r0 {
            Ok(v) => v,
            Err(e) => {
                let out = A::error_into(e);
                assert(A::extracts(*req, s0, g0, s1));
                return Err(out);
            },
        };
        let r1 = B::from_request(req, payload);
        let ghost s2 = payload.chunks@;
        let ghost g1 = r1;
        let v1 = match r1 {
            Ok(v) => v,
            Err(e) => {
                let out = B::error_into(e);
                assert(A::extracts(*req, s0, g0, s1));
                assert(B::extracts(*req, s1, g1, s2));
                return Err(out);
            },
        };
        let r2 = C::from_request(req, payload);
        let ghost s3 = payload.chunks@;
        let ghost g2 = r2;
        let v2 = match r2 {
            Ok(v) => v,
            Err(e) => {
                let out = C::error_into(e);
                assert(A::extracts(*req, s0, g0, s1));
                assert(B::extracts(*req, s1, g1, s2));
                assert(C::extracts(*req, s2, g2, s3));
                return Err(out);
            },
        };
        let r3 = D::from_request(req, payload);
        let ghost s4 = payload.chunks@;
        let ghost g3 = r3;
        let v3 = match r3 {
            Ok(v) => v,
            Err(e) => {
                let out = D::error_into(e);
                assert(A::extracts(*req, s0, g0, s1));
                assert(B::extracts(*req, s1, g1, s2));
                assert(C::extracts(*req, s2, g2, s3));
                assert(D::extracts(*req, s3, g3, s4));
                return Err(out);
            },
        };
        let r4 = E::from_request(req, payload);
        let ghost s5 = payload.chunks@;
        let ghost g4 = r4;
        let v4 = match r4 {
            Ok(v) => v,
            Err(e) => {
                let out = E::error_into(e);
                assert(A::extracts(*req, s0, g0, s1));
                assert(B::extracts(*req, s1, g1, s2));
                assert(C::extracts(*req, s2, g2, s3));
                assert(D::extracts(*req, s3, g3, s4));
                assert(E::extracts(*req, s4, g4, s5));
                return Err(out);
            },
        };
        assert(A::extracts(*req, s0, g0, s1));
        assert(B::extracts(*req, s1, g1, s2));
        assert(C::extracts(*req, s2, g2, s3));
        assert(D::extracts(*req, s3, g3, s4));
        assert(E::extracts(*req, s4, g4, s5));
        Ok((v0, v1, v2, v3, v4))
    }

    fn error_into(e: PipelineError) -> (r: PipelineError) {
        e
    }
}

impl<A: FromRequest, B: FromRequest, C: FromRequest, D: FromRequest, E: FromRequest, F: FromRequest> FromRequest for (A, B, C, D, E, F) {
    type Rejection = PipelineError;

    open spec fn extracts(req: HttpRequest, before: Seq<Vec<u8>>, r: Result<(A, B, C, D, E, F), PipelineError>, after: Seq<Vec<u8>>) -> bool {
        exists|r0: Result<A, A::Rejection>, s1: Seq<Vec<u8>>| {
            &&& #[trigger] A::extracts(req, before, r0, s1)
            &&& match r0 {
                Err(e) => after == s1 && (r matches Err(out) && A::converts(e, out)),
                Ok(v0) => exists|r1: Result<B, B::Rejection>, s2: Seq<Vec<u8>>| {
                    &&& #[trigger] B::extracts(req, s1, r1, s2)
                    &&& match r1 {
                        Err(e) => after == s2 && (r matches Err(out) && B::converts(e, out)),
                        Ok(v1) => exists|r2: Result<C, C::Rejection>, s3: Seq<Vec<u8>>| {
                            &&& #[trigger] C::extracts(req, s2, r2, s3)
                            &&& match r2 {
                                Err(e) => after == s3 && (r matches Err(out) && C::converts(e, out)),
                                Ok(v2) => exists|r3: Result<D, D::Rejection>, s4: Seq<Vec<u8>>| {
                                    &&& #[trigger] D::extracts(req, s3, r3, s4)
                                    &&& match r3 {
                                        Err(e) => after == s4 && (r matches Err(out) && D::converts(e, out)),
                                        Ok(v3) => exists|r4: Result<E, E::Rejection>, s5: Seq<Vec<u8>>| {
                                            &&& #[trigger] E::extracts(req, s4, r4, s5)
                                            &&& match r4 {
                                                Err(e) => after == s5 && (r matches Err(out) && E::converts(e, out)),
                                                Ok(v4) => exists|r5: Result<F, F::Rejection>| {
                                                    &&& #[trigger] F::extracts(req, s5, r5, after)
                                                    &&& match r5 {
                                                        Err(e) => r matches Err(out) && F::converts(e, out),
                                                        Ok(v5) => r == Ok::<(A, B, C, D, E, F), PipelineError>((v0, v1, v2, v3, v4, v5)),
                                                    }
                                                },
                                            }
                                        },
                                    }
                                },
                            }
                        },
                    }
                },
            }
        }
    }

    open spec fn converts(e: PipelineError, out: PipelineError) -> bool {
        out == e
    }

    fn from_request(req: &HttpRequest, payload: &mut Payload) -> (r: Result<(A, B, C, D, E, F), PipelineError>) {
        let ghost s0 = payload.chunks@;
        let r0 = A::from_request(req, payload);
        let ghost s1 = payload.chunks@;
        let ghost g0 = r0;
        let v0 = match r0 {
            Ok(v) => v,
            Err(e) => {
                let out = A::error_into(e);
                assert(A::extracts(*req, s0, g0, s1));
                return Err(out);
            },
        };
        let r1 = B::from_request(req, payload);
        let ghost s2 = payload.chunks@;
        let ghost g1 = r1;
        let v1 = match r1 {
            Ok(v) => v,
            Err(e) => {
                let out = B::error_into(e);
                assert(A::extracts(*req, s0, g0, s1));
                assert(B::extracts(*req, s1, g1, s2));
                return Err(out);
            },
        };
        let r2 = C::from_request(req, payload);
        let ghost s3 = payload.chunks@;
        let ghost g2 = r2;
        let v2 = match r2 {
            Ok(v) => v,
            Err(e) => {
                let out = C::error_into(e);
                assert(A::extracts(*req, s0, g0, s1));
                assert(B::extracts(*req, s1, g1, s2));
                assert(C::extracts(*req, s2, g2, s3));
                return Err(out);
            },
        };
        let r3 = D::from_request(req, payload);
        let ghost s4 = payload.chunks@;
        let ghost g3 = r3;
        let v3 = match r3 {
            Ok(v) => v,
            Err(e) => {
                let out = D::error_into(e);
                assert(A::extracts(*req, s0, g0, s1));
                assert(B::extracts(*req, s1, g1, s2));
                assert(C::extracts(*req, s2, g2, s3));
                assert(D::extracts(*req, s3, g3, s4));
                return Err(out);
            },
        };
        let r4 = E::from_request(req, payload);
        let ghost s5 = payload.chunks@;
        let ghost g4 = r4;
        let v4 = match r4 {
            Ok(v) => v,
            Err(e) => {
                let out = E::error_into(e);
                assert(A::extracts(*req, s0, g0, s1));
                assert(B::extracts(*req, s1, g1, s2));
                assert(C::extracts(*req, s2, g2, s3));
                assert(D::extracts(*req, s3, g3, s4));
                assert(E::extracts(*req, s4, g4, s5));
                return Err(out);
            },
        };
        let r5 = F::from_request(req, payload);
        let ghost s6 = payload.chunks@;
        let ghost g5 = r5;
        let v5 = match r5 {
            Ok(v) => v,
            Err(e) => {
                let out = F::error_into(e);
                assert(A::extracts(*req, s0, g0, s1));
                assert(B::extracts(*req, s1, g1, s2));
                assert(C::extracts(*req, s2, g2, s3));
                assert(D::extracts(*req, s3, g3, s4));
                assert(E::extracts(*req, s4, g4, s5));
                assert(F::extracts(*req, s5, g5, s6));
                return Err(out);
            },
        };
        assert(A::extracts(*req, s0, g0, s1));
        assert(B::extracts(*req, s1, g1, s2));
        assert(C::extracts(*req, s2, g2, s3));
        assert(D::extracts(*req, s3, g3, s4));
        assert(E::extracts(*req, s4, g4, s5));
        assert(F::extracts(*req, s5, g5, s6));
        Ok((v0, v1, v2, v3, v4, v5))
    }

    fn error_into(e: PipelineError) -> (r: PipelineError) {
        e
    }
}

impl<A: FromRequest, B: FromRequest, C: FromRequest, D: FromRequest, E: FromRequest, F: FromRequest, G: FromRequest> FromRequest for (A, B, C, D, E, F, G) {
    type Rejection = PipelineError;

    open spec fn extracts(req: HttpRequest, before: Seq<Vec<u8>>, r: Result<(A, B, C, D, E, F, G), PipelineError>, after: Seq<Vec<u8>>) -> bool {
        exists|r0: Result<A, A::Rejection>, s1: Seq<Vec<u8>>| {
            &&& #[trigger] A::extracts(req, before, r0, s1)
            &&& match r0 {
                Err(e) => after == s1 && (r matches Err(out) && A::converts(e, out)),
                Ok(v0) => exists|r1: Result<B, B::Rejection>, s2: Seq<Vec<u8>>| {
                    &&& #[trigger] B::extracts(req, s1, r1, s2)
                    &&& match r1 {
                        Err(e) => after == s2 && (r matches Err(out) && B::converts(e, out)),
                        Ok(v1) => exists|r2: Result<C, C::Rejection>, s3: Seq<Vec<u8>>| {
                            &&& #[trigger] C::extracts(req, s2, r2, s3)
                            &&& match r2 {
                                Err(e) => after == s3 && (r matches Err(out) && C::converts(e, out)),
                                Ok(v2) => exists|r3: Result<D, D::Rejection>, s4: Seq<Vec<u8>>| {
                                    &&& #[trigger] D::extracts(req, s3, r3, s4)
                                    &&& match r3 {
                                        Err(e) => after == s4 && (r matches Err(out) && D::converts(e, out)),
                                        Ok(v3) => exists|r4: Result<E, E::Rejection>, s5: Seq<Vec<u8>>| {
                                            &&& #[trigger] E::extracts(req, s4, r4, s5)
                                            &&& match r4 {
                                                Err(e) => after == s5 && (r matches Err(out) && E::converts(e, out)),
                                                Ok(v4) => exists|r5: Result<F, F::Rejection>, s6: Seq<Vec<u8>>| {
                                                    &&& #[trigger] F::extracts(req, s5, r5, s6)
                                                    &&& match r5 {
                                                        Err(e) => after == s6 && (r matches Err(out) && F::converts(e, out)),
                                                        Ok(v5) => exists|r6: Result<G, G::Rejection>| {
                                                            &&& #[trigger] G::extracts(req, s6, r6, after)
                                                            &&& match r6 {
                                                                Err(e) => r matches Err(out) && G::converts(e, out),
                                                                Ok(v6) => r == Ok::<(A, B, C, D, E, F, G), PipelineError>((v0, v1, v2, v3, v4, v5, v6)),
                                                            }
                                                        },
                                                    }
                                                },
                                            }
                                        },
                                    }
                                },
                            }
                        },
                    }
                },
            }
        }
    }

    open spec fn converts(e: PipelineError, out: PipelineError) -> bool {
        out == e
    }

    fn from_request(req: &HttpRequest, payload: &mut Payload) -> (r: Result<(A, B, C, D, E, F, G), PipelineError>) {
        let ghost s0 = payload.chunks@;
        let r0 = A::from_request(req, payload);
        let ghost s1 = payload.chunks@;
        let ghost g0 = r0;
        let v0 = match r0 {
            Ok(v) => v,
            Err(e) => {
                let out = A::error_into(e);
                assert(A::extracts(*req, s0, g0, s1));
                return Err(out);
            },
        };
        let r1 = B::from_request(req, payload);
        let ghost s2 = payload.chunks@;
        let ghost g1 = r1;
        let v1 = match r1 {
            Ok(v) => v,
            Err(e) => {
                let out = B::error_into(e);
                assert(A::extracts(*req, s0, g0, s1));
                assert(B::extracts(*req, s1, g1, s2));
                return Err(out);
            },
        };
        let r2 = C::from_request(req, payload);
        let ghost s3 = payload.chunks@;
        let ghost g2 = r2;
        let v2 = match r2 {
            Ok(v) => v,
            Err(e) => {
                let out = C::error_into(e);
                assert(A::extracts(*req, s0, g0, s1));
                assert(B::extracts(*req, s1, g1, s2));
                assert(C::extracts(*req, s2, g2, s3));
                return Err(out);
            },
        };
        let r3 = D::from_request(req, payload);
        let ghost s4 = payload.chunks@;
        let ghost g3 = r3;
        let v3 = match r3 {
            Ok(v) => v,
            Err(e) => {
                let out = D::error_into(e);
                assert(A::extracts(*req, s0, g0, s1));
                assert(B::extracts(*req, s1, g1, s2));
                assert(C::extracts(*req, s2, g2, s3));
                assert(D::extracts(*req, s3, g3, s4));
                return Err(out);
            },
        };
        let r4 = E::from_request(req, payload);
        let ghost s5 = payload.chunks@;
        let ghost g4 = r4;
        let v4 = match r4 {
            Ok(v) => v,
            Err(e) => {
                let out = E::error_into(e);
                assert(A::extracts(*req, s0, g0, s1));
                assert(B::extracts(*req, s1, g1, s2));
                assert(C::extracts(*req, s2, g2, s3));
                assert(D::extracts(*req, s3, g3, s4));
                assert(E::extracts(*req, s4, g4, s5));
                return Err(out);
            },
        };
        let r5 = F::from_request(req, payload);
        let ghost s6 = payload.chunks@;
        let ghost g5 = r5;
        let v5 = match r5 {
            Ok(v) => v,
            Err(e) => {
                let out = F::error_into(e);
                assert(A::extracts(*req, s0, g0, s1));
                assert(B::extracts(*req, s1, g1, s2));
                assert(C::extracts(*req, s2, g2, s3));
                assert(D::extracts(*req, s3, g3, s4));
                assert(E::extracts(*req, s4, g4, s5));
                assert(F::extracts(*req, s5, g5, s6));
                return Err(out);
            },
        };
        let r6 = G::from_request(req, payload);
        let ghost s7 = payload.chunks@;
        let ghost g6 = r6;
        let v6 = match r6 {
            Ok(v) => v,
            Err(e) => {
                let out = G::error_into(e);
                assert(A::extracts(*req, s0, g0, s1));
                assert(B::extracts(*req, s1, g1, s2));
                assert(C::extracts(*req, s2, g2, s3));
                assert(D::extracts(*req, s3, g3, s4));
                assert(E::extracts(*req, s4, g4, s5));
                assert(F::extracts(*req, s5, g5, s6));
                assert(G::extracts(*req, s6, g6, s7));
                return Err(out);
            },
        };
        assert(A::extracts(*req, s0, g0, s1));
        assert(B::extracts(*req, s1, g1, s2));
        assert(C::extracts(*req, s2, g2, s3));
        assert(D::extracts(*req, s3, g3, s4));
        assert(E::extracts(*req, s4, g4, s5));
        assert(F::extracts(*req, s5, g5, s6));
        assert(G::extracts(*req, s6, g6, s7));
        Ok((v0, v1, v2, v3, v4, v5, v6))
    }

    fn error_into(e: PipelineError) -> (r: PipelineError) {
        e
    }
}

impl<A: FromRequest, B: FromRequest, C: FromRequest, D: FromRequest, E: FromRequest, F: FromRequest, G: FromRequest, H: FromRequest> FromRequest for (A, B, C, D, E, F, G, H) {
    type Rejection = PipelineError;

    open spec fn extracts(req: HttpRequest, before: Seq<Vec<u8>>, r: Result<(A, B, C, D, E, F, G, H), PipelineError>, after: Seq<Vec<u8>>) -> bool {
        exists|r0: Result<A, A::Rejection>, s1: Seq<Vec<u8>>| {
            &&& #[trigger] A::extracts(req, before, r0, s1)
            &&& match r0 {
                Err(e) => after == s1 && (r matches Err(out) && A::converts(e, out)),
                Ok(v0) => exists|r1: Result<B, B::Rejection>, s2: Seq<Vec<u8>>| {
                    &&& #[trigger] B::extracts(req, s1, r1, s2)
                    &&& match r1 {
                        Err(e) => after == s2 && (r matches Err(out) && B::converts(e, out)),
                        Ok(v1) => exists|r2: Result<C, C::Rejection>, s3: Seq<Vec<u8>>| {
                            &&& #[trigger] C::extracts(req, s2, r2, s3)
                            &&& match r2 {
                                Err(e) => after == s3 && (r matches Err(out) && C::converts(e, out)),
                                Ok(v2) => exists|r3: Result<D, D::Rejection>, s4: Seq<Vec<u8>>| {
                                    &&& #[trigger] D::extracts(req, s3, r3, s4)
                                    &&& match r3 {
                                        Err(e) => after == s4 && (r matches Err(out) && D::converts(e, out)),
                                        Ok(v3) => exists|r4: Result<E, E::Rejection>, s5: Seq<Vec<u8>>| {
                                            &&& #[trigger] E::extracts(req, s4, r4, s5)
                                            &&& match r4 {
                                                Err(e) => after == s5 && (r matches Err(out) && E::converts(e, out)),
                                                Ok(v4) => exists|r5: Result<F, F::Rejection>, s6: Seq<Vec<u8>>| {
                                                    &&& #[trigger] F::extracts(req, s5, r5, s6)
                                                    &&& match r5 {
                                                        Err(e) => after == s6 && (r matches Err(out) && F::converts(e, out)),
                                                        Ok(v5) => exists|r6: Result<G, G::Rejection>, s7: Seq<Vec<u8>>| {
                                                            &&& #[trigger] G::extracts(req, s6, r6, s7)
                                                            &&& match r6 {
                                                                Err(e) => after == s7 && (r matches Err(out) && G::converts(e, out)),
                                                                Ok(v6) => exists|r7: Result<H, H::Rejection>| {
                                                                    &&& #[trigger] H::extracts(req, s7, r7, after)
                                                                    &&& match r7 {
                                                                        Err(e) => r matches Err(out) && H::converts(e, out),
                                                                        Ok(v7) => r == Ok::<(A, B, C, D, E, F, G, H), PipelineError>((v0, v1, v2, v3, v4, v5, v6, v7)),
                                                                    }
                                                                },
                                                            }
                                                        },
                                                    }
                                                },
                                            }
                                        },
                                    }
                                },
                            }
                        },
                    }
                },
            }
        }
    }

    open spec fn converts(e: PipelineError, out: PipelineError) -> bool {
        out == e
    }

    fn from_request(req: &HttpRequest, payload: &mut Payload) -> (r: Result<(A, B, C, D, E, F, G, H), PipelineError>) {
        let ghost s0 = payload.chunks@;
        let r0 = A::from_request(req, payload);
        let ghost s1 = payload.chunks@;
        let ghost g0 = r0;
        let v0 = match r0 {
            Ok(v) => v,
            Err(e) => {
                let out = A::error_into(e);
                assert(A::extracts(*req, s0, g0, s1));
                return Err(out);
            },
        };
        let r1 = B::from_request(req, payload);
        let ghost s2 = payload.chunks@;
        let ghost g1 = r1;
        let v1 = match r1 {
            Ok(v) => v,
            Err(e) => {
                let out = B::error_into(e);
                assert(A::extracts(*req, s0, g0, s1));
                assert(B::extracts(*req, s1, g1, s2));
                return Err(out);
            },
        };
        let r2 = C::from_request(req, payload);
        let ghost s3 = payload.chunks@;
        let ghost g2 = r2;
        let v2 = match r2 {
            Ok(v) => v,
            Err(e) => {
                let out = C::error_into(e);
                assert(A::extracts(*req, s0, g0, s1));
                assert(B::extracts(*req, s1, g1, s2));
                assert(C::extracts(*req, s2, g2, s3));
                return Err(out);
            },
        };
        let r3 = D::from_request(req, payload);
        let ghost s4 = payload.chunks@;
        let ghost g3 = r3;
        let v3 = match r3 {
            Ok(v) => v,
            Err(e) => {
                let out = D::error_into(e);
                assert(A::extracts(*req, s0, g0, s1));
                assert(B::extracts(*req, s1, g1, s2));
                assert(C::extracts(*req, s2, g2, s3));
                assert(D::extracts(*req, s3, g3, s4));
                return Err(out);
            },
        };
        let r4 = E::from_request(req, payload);
        let ghost s5 = payload.chunks@;
        let ghost g4 = r4;
        let v4 = match r4 {
            Ok(v) => v,
            Err(e) => {
                let out = E::error_into(e);
                assert(A::extracts(*req, s0, g0, s1));
                assert(B::extracts(*req, s1, g1, s2));
                assert(C::extracts(*req, s2, g2, s3));
                assert(D::extracts(*req, s3, g3, s4));
                assert(E::extracts(*req, s4, g4, s5));
                return Err(out);
            },
        };
        let r5 = F::from_request(req, payload);
        let ghost s6 = payload.chunks@;
        let ghost g5 = r5;
        let v5 = match r5 {
            Ok(v) => v,
            Err(e) => {
                let out = F::error_into(e);
                assert(A::extracts(*req, s0, g0, s1));
                assert(B::extracts(*req, s1, g1, s2));
                assert(C::extracts(*req, s2, g2, s3));
                assert(D::extracts(*req, s3, g3, s4));
                assert(E::extracts(*req, s4, g4, s5));
                assert(F::extracts(*req, s5, g5, s6));
                return Err(out);
            },
        };
        let r6 = G::from_request(req, payload);
        let ghost s7 = payload.chunks@;
        let ghost g6 = r6;
        let v6 = match r6 {
            Ok(v) => v,
            Err(e) => {
                let out = G::error_into(e);
                assert(A::extracts(*req, s0, g0, s1));
                assert(B::extracts(*req, s1, g1, s2));
                assert(C::extracts(*req, s2, g2, s3));
                assert(D::extracts(*req, s3, g3, s4));
                assert(E::extracts(*req, s4, g4, s5));
                assert(F::extracts(*req, s5, g5, s6));
                assert(G::extracts(*req, s6, g6, s7));
                return Err(out);
            },
        };
        let r7 = H::from_request(req, payload);
        let ghost s8 = payload.chunks@;
        let ghost g7 = r7;
        let v7 = match r7 {
            Ok(v) => v,
            Err(e) => {
                let out = H::error_into(e);
                assert(A::extracts(*req, s0, g0, s1));
                assert(B::extracts(*req, s1, g1, s2));
                assert(C::extracts(*req, s2, g2, s3));
                assert(D::extracts(*req, s3, g3, s4));
                assert(E::extracts(*req, s4, g4, s5));
                assert(F::extracts(*req, s5, g5, s6));
                assert(G::extracts(*req, s6, g6, s7));
                assert(H::extracts(*req, s7, g7, s8));
                return Err(out);
            },
        };
        assert(A::extracts(*req, s0, g0, s1));
        assert(B::extracts(*req, s1, g1, s2));
        assert(C::extracts(*req, s2, g2, s3));
        assert(D::extracts(*req, s3, g3, s4));
        assert(E::extracts(*req, s4, g4, s5));
        assert(F::extracts(*req, s5, g5, s6));
        assert(G::extracts(*req, s6, g6, s7));
        assert(H::extracts(*req, s7, g7, s8));
        Ok((v0, v1, v2, v3, v4, v5, v6, v7))
    }

    fn error_into(e: PipelineError) -> (r: PipelineError) {
        e
    }
}

impl<A: FromRequest, B: FromRequest, C: FromRequest, D: FromRequest, E: FromRequest, F: FromRequest, G: FromRequest, H: FromRequest, I: FromRequest> FromRequest for (A, B, C, D, E, F, G, H, I) {
    type Rejection = PipelineError;

    open spec fn extracts(req: HttpRequest, before: Seq<Vec<u8>>, r: Result<(A, B, C, D, E, F, G, H, I), PipelineError>, after: Seq<Vec<u8>>) -> bool {
        exists|r0: Result<A, A::Rejection>, s1: Seq<Vec<u8>>| {
            &&& #[trigger] A::extracts(req, before, r0, s1)
            &&& match r0 {
                Err(e) => after == s1 && (r matches Err(out) && A::converts(e, out)),
                Ok(v0) => exists|r1: Result<B, B::Rejection>, s2: Seq<Vec<u8>>| {
                    &&& #[trigger] B::extracts(req, s1, r1, s2)
                    &&& match r1 {
                        Err(e) => after == s2 && (r matches Err(out) && B::converts(e, out)),
                        Ok(v1) => exists|r2: Result<C, C::Rejection>, s3: Seq<Vec<u8>>| {
                            &&& #[trigger] C::extracts(req, s2, r2, s3)
                            &&& match r2 {
                                Err(e) => after == s3 && (r matches Err(out) && C::converts(e, out)),
                                Ok(v2) => exists|r3: Result<D, D::Rejection>, s4: Seq<Vec<u8>>| {
                                    &&& #[trigger] D::extracts(req, s3, r3, s4)
                                    &&& match r3 {
                                        Err(e) => after == s4 && (r matches Err(out) && D::converts(e, out)),
                                        Ok(v3) => exists|r4: Result<E, E::Rejection>, s5: Seq<Vec<u8>>| {
                                            &&& #[trigger] E::extracts(req, s4, r4, s5)
                                            &&& match r4 {
                                                Err(e) => after == s5 && (r matches Err(out) && E::converts(e, out)),
                                                Ok(v4) => exists|r5: Result<F, F::Rejection>, s6: Seq<Vec<u8>>| {
                                                    &&& #[trigger] F::extracts(req, s5, r5, s6)
                                                    &&& match r5 {
                                                        Err(e) => after == s6 && (r matches Err(out) && F::converts(e, out)),
                                                        Ok(v5) => exists|r6: Result<G, G::Rejection>, s7: Seq<Vec<u8>>| {
                                                            &&& #[trigger] G::extracts(req, s6, r6, s7)
                                                            &&& match r6 {
                                                                Err(e) => after == s7 && (r matches Err(out) && G::converts(e, out)),
                                                                Ok(v6) => exists|r7: Result<H, H::Rejection>, s8: Seq<Vec<u8>>| {
                                                                    &&& #[trigger] H::extracts(req, s7, r7, s8)
                                                                    &&& match r7 {
                                                                        Err(e) => after == s8 && (r matches Err(out) && H::converts(e, out)),
                                                                        Ok(v7) => exists|r8: Result<I, I::Rejection>| {
                                                                            &&& #[trigger] I::extracts(req, s8, r8, after)
                                                                            &&& match r8 {
                                                                                Err(e) => r matches Err(out) && I::converts(e, out),
                                                                                Ok(v8) => r == Ok::<(A, B, C, D, E, F, G, H, I), PipelineError>((v0, v1, v2, v3, v4, v5, v6, v7, v8)),
                                                                            }
                                                                        },
                                                                    }
                                                                },
                                                            }
                                                        },
                                                    }
                                                },
                                            }
                                        },
                                    }
                                },
                            }
                        },
                    }
                },
            }
        }
    }

    open spec fn converts(e: PipelineError, out: PipelineError) -> bool {
        out == e
    }

    fn from_request(req: &HttpRequest, payload: &mut Payload) -> (r: Result<(A, B, C, D, E, F, G, H, I), PipelineError>) {
        let ghost s0 = payload.chunks@;
        let r0 = A::from_request(req, payload);
        let ghost s1 = payload.chunks@;
        let ghost g0 = r0;
        let v0 = match r0 {
            Ok(v) => v,
            Err(e) => {
                let out = A::error_into(e);
                assert(A::extracts(*req, s0, g0, s1));
                return Err(out);
            },
        };
        let r1 = B::from_request(req, payload);
        let ghost s2 = payload.chunks@;
        let ghost g1 = r1;
        let v1 = match r1 {
            Ok(v) => v,
            Err(e) => {
                let out = B::error_into(e);
                assert(A::extracts(*req, s0, g0, s1));
                assert(B::extracts(*req, s1, g1, s2));
                return Err(out);
            },
        };
        let r2 = C::from_request(req, payload);
        let ghost s3 = payload.chunks@;
        let ghost g2 = r2;
        let v2 = match r2 {
            Ok(v) => v,
            Err(e) => {
                let out = C::error_into(e);
                assert(A::extracts(*req, s0, g0, s1));
                assert(B::extracts(*req, s1, g1, s2));
                assert(C::extracts(*req, s2, g2, s3));
                return Err(out);
            },
        };
        let r3 = D::from_request(req, payload);
        let ghost s4 = payload.chunks@;
        let ghost g3 = r3;
        let v3 = match r3 {
            Ok(v) => v,
            Err(e) => {
                let out = D::error_into(e);
                assert(A::extracts(*req, s0, g0, s1));
                assert(B::extracts(*req, s1, g1, s2));
                assert(C::extracts(*req, s2, g2, s3));
                assert(D::extracts(*req, s3, g3, s4));
                return Err(out);
            },
        };
        let r4 = E::from_request(req, payload);
        let ghost s5 = payload.chunks@;
        let ghost g4 = r4;
        let v4 = match r4 {
            Ok(v) => v,
            Err(e) => {
                let out = E::error_into(e);
                assert(A::extracts(*req, s0, g0, s1));
                assert(B::extracts(*req, s1, g1, s2));
                assert(C::extracts(*req, s2, g2, s3));
                assert(D::extracts(*req, s3, g3, s4));
                assert(E::extracts(*req, s4, g4, s5));
                return Err(out);
            },
        };
        let r5 = F::from_request(req, payload);
        let ghost s6 = payload.chunks@;
        let ghost g5 = r5;
        let v5 = match r5 {
            Ok(v) => v,
            Err(e) => {
                let out = F::error_into(e);
                assert(A::extracts(*req, s0, g0, s1));
                assert(B::extracts(*req, s1, g1, s2));
                assert(C::extracts(*req, s2, g2, s3));
                assert(D::extracts(*req, s3, g3, s4));
                assert(E::extracts(*req, s4, g4, s5));
                assert(F::extracts(*req, s5, g5, s6));
                return Err(out);
            },
        };
        let r6 = G::from_request(req, payload);
        let ghost s7 = payload.chunks@;
        let ghost g6 = r6;
        let v6 = match r6 {
            Ok(v) => v,
            Err(e) => {
                let out = G::error_into(e);
                assert(A::extracts(*req, s0, g0, s1));
                assert(B::extracts(*req, s1, g1, s2));
                assert(C::extracts(*req, s2, g2, s3));
                assert(D::extracts(*req, s3, g3, s4));
                assert(E::extracts(*req, s4, g4, s5));
                assert(F::extracts(*req, s5, g5, s6));
                assert(G::extracts(*req, s6, g6, s7));
                return Err(out);
            },
        };
        let r7 = H::from_request(req, payload);
        let ghost s8 = payload.chunks@;
        let ghost g7 = r7;
        let v7 = match r7 {
            Ok(v) => v,
            Err(e) => {
                let out = H::error_into(e);
                assert(A::extracts(*req, s0, g0, s1));
                assert(B::extracts(*req, s1, g1, s2));
                assert(C::extracts(*req, s2, g2, s3));
                assert(D::extracts(*req, s3, g3, s4));
                assert(E::extracts(*req, s4, g4, s5));
                assert(F::extracts(*req, s5, g5, s6));
                assert(G::extracts(*req, s6, g6, s7));
                assert(H::extracts(*req, s7, g7, s8));
                return Err(out);
            },
        };
        let r8 = I::from_request(req, payload);
        let ghost s9 = payload.chunks@;
        let ghost g8 = r8;
        let v8 = match r8 {
            Ok(v) => v,
            Err(e) => {
                let out = I::error_into(e);
                assert(A::extracts(*req, s0, g0, s1));
                assert(B::extracts(*req, s1, g1, s2));
                assert(C::extracts(*req, s2, g2, s3));
                assert(D::extracts(*req, s3, g3, s4));
                assert(E::extracts(*req, s4, g4, s5));
                assert(F::extracts(*req, s5, g5, s6));
                assert(G::extracts(*req, s6, g6, s7));
                assert(H::extracts(*req, s7, g7, s8));
                assert(I::extracts(*req, s8, g8, s9));
                return Err(out);
            },
        };
        assert(A::extracts(*req, s0, g0, s1));
        assert(B::extracts(*req, s1, g1, s2));
        assert(C::extracts(*req, s2, g2, s3));
        assert(D::extracts(*req, s3, g3, s4));
        assert(E::extracts(*req, s4, g4, s5));
        assert(F::extracts(*req, s5, g5, s6));
        assert(G::extracts(*req, s6, g6, s7));
        assert(H::extracts(*req, s7, g7, s8));
        assert(I::extracts(*req, s8, g8, s9));
        Ok((v0, v1, v2, v3, v4, v5, v6, v7, v8))
    }

    fn error_into(e: PipelineError) -> (r: PipelineError) {
        e
    }
}

impl<A: FromRequest, B: FromRequest, C: FromRequest, D: FromRequest, E: FromRequest, F: FromRequest, G: FromRequest, H: FromRequest, I: FromRequest, J: FromRequest> FromRequest for (A, B, C, D, E, F, G, H, I, J) {
    type Rejection = PipelineError;

    open spec fn extracts(req: HttpRequest, before: Seq<Vec<u8>>, r: Result<(A, B, C, D, E, F, G, H, I, J), PipelineError>, after: Seq<Vec<u8>>) -> bool {
        exists|r0: Result<A, A::Rejection>, s1: Seq<Vec<u8>>| {
            &&& #[trigger] A::extracts(req, before, r0, s1)
            &&& match r0 {
                Err(e) => after == s1 && (r matches Err(out) && A::converts(e, out)),
                Ok(v0) => exists|r1: Result<B, B::Rejection>, s2: Seq<Vec<u8>>| {
                    &&& #[trigger] B::extracts(req, s1, r1, s2)
                    &&& match r1 {
                        Err(e) => after == s2 && (r matches Err(out) && B::converts(e, out)),
                        Ok(v1) => exists|r2: Result<C, C::Rejection>, s3: Seq<Vec<u8>>| {
                            &&& #[trigger] C::extracts(req, s2, r2, s3)
                            &&& match r2 {
                                Err(e) => after == s3 && (r matches Err(out) && C::converts(e, out)),
                                Ok(v2) => exists|r3: Result<D, D::Rejection>, s4: Seq<Vec<u8>>| {
                                    &&& #[trigger] D::extracts(req, s3, r3, s4)
                                    &&& match r3 {
                                        Err(e) => after == s4 && (r matches Err(out) && D::converts(e, out)),
                                        Ok(v3) => exists|r4: Result<E, E::Rejection>, s5: Seq<Vec<u8>>| {
                                            &&& #[trigger] E::extracts(req, s4, r4, s5)
                                            &&& match r4 {
                                                Err(e) => after == s5 && (r matches Err(out) && E::converts(e, out)),
                                                Ok(v4) => exists|r5: Result<F, F::Rejection>, s6: Seq<Vec<u8>>| {
                                                    &&& #[trigger] F::extracts(req, s5, r5, s6)
                                                    &&& match r5 {
                                                        Err(e) => after == s6 && (r matches Err(out) && F::converts(e, out)),
                                                        Ok(v5) => exists|r6: Result<G, G::Rejection>, s7: Seq<Vec<u8>>| {
                                                            &&& #[trigger] G::extracts(req, s6, r6, s7)
                                                            &&& match r6 {
                                                                Err(e) => after == s7 && (r matches Err(out) && G::converts(e, out)),
                                                                Ok(v6) => exists|r7: Result<H, H::Rejection>, s8: Seq<Vec<u8>>| {
                                                                    &&& #[trigger] H::extracts(req, s7, r7, s8)
                                                                    &&& match r7 {
                                                                        Err(e) => after == s8 && (r matches Err(out) && H::converts(e, out)),
                                                                        Ok(v7) => exists|r8: Result<I, I::Rejection>, s9: Seq<Vec<u8>>| {
                                                                            &&& #[trigger] I::extracts(req, s8, r8, s9)
                                                                            &&& match r8 {
                                                                                Err(e) => after == s9 && (r matches Err(out) && I::converts(e, out)),
                                                                                Ok(v8) => exists|r9: Result<J, J::Rejection>| {
                                                                                    &&& #[trigger] J::extracts(req, s9, r9, after)
                                                                                    &&& match r9 {
                                                                                        Err(e) => r matches Err(out) && J::converts(e, out),
                                                                                        Ok(v9) => r == Ok::<(A, B, C, D, E, F, G, H, I, J), PipelineError>((v0, v1, v2, v3, v4, v5, v6, v7, v8, v9)),
                                                                                    }
                                                                                },
                                                                            }
                                                                        },
                                                                    }
                                                                },
                                                            }
                                                        },
                                                    }
                                                },
                                            }
                                        },
                                    }
                                },
                            }
                        },
                    }
                },
            }
        }
    }

    open spec fn converts(e: PipelineError, out: PipelineError) -> bool {
        out == e
    }

    fn from_request(req: &HttpRequest, payload: &mut Payload) -> (r: Result<(A, B, C, D, E, F, G, H, I, J), PipelineError>) {
        let ghost s0 = payload.chunks@;
        let r0 = A::from_request(req, payload);
        let ghost s1 = payload.chunks@;
        let ghost g0 = r0;
        let v0 = match r0 {
            Ok(v) => v,
            Err(e) => {
                let out = A::error_into(e);
                assert(A::extracts(*req, s0, g0, s1));
                return Err(out);
            },
        };
        let r1 = B::from_request(req, payload);
        let ghost s2 = payload.chunks@;
        let ghost g1 = r1;
        let v1 = match r1 {
            Ok(v) => v,
            Err(e) => {
                let out = B::error_into(e);
                assert(A::extracts(*req, s0, g0, s1));
                assert(B::extracts(*req, s1, g1, s2));
                return Err(out);
            },
        };
        let r2 = C::from_request(req, payload);
        let ghost s3 = payload.chunks@;
        let ghost g2 = r2;
        let v2 = match r2 {
            Ok(v) => v,
            Err(e) => {
                let out = C::error_into(e);
                assert(A::extracts(*req, s0, g0, s1));
                assert(B::extracts(*req, s1, g1, s2));
                assert(C::extracts(*req, s2, g2, s3));
                return Err(out);
            },
        };
        let r3 = D::from_request(req, payload);
        let ghost s4 = payload.chunks@;
        let ghost g3 = r3;
        let v3 = match r3 {
            Ok(v) => v,
            Err(e) => {
                let out = D::error_into(e);
                assert(A::extracts(*req, s0, g0, s1));
                assert(B::extracts(*req, s1, g1, s2));
                assert(C::extracts(*req, s2, g2, s3));
                assert(D::extracts(*req, s3, g3, s4));
                return Err(out);
            },
        };
        let r4 = E::from_request(req, payload);
        let ghost s5 = payload.chunks@;
        let ghost g4 = r4;
        let v4 = match r4 {
            Ok(v) => v,
            Err(e) => {
                let out = E::error_into(e);
                assert(A::extracts(*req, s0, g0, s1));
                assert(B::extracts(*req, s1, g1, s2));
                assert(C::extracts(*req, s2, g2, s3));
                assert(D::extracts(*req, s3, g3, s4));
                assert(E::extracts(*req, s4, g4, s5));
                return Err(out);
            },
        };
        let r5 = F::from_request(req, payload);
        let ghost s6 = payload.chunks@;
        let ghost g5 = r5;
        let v5 = match r5 {
            Ok(v) => v,
            Err(e) => {
                let out = F::error_into(e);
                assert(A::extracts(*req, s0, g0, s1));
                assert(B::extracts(*req, s1, g1, s2));
                assert(C::extracts(*req, s2, g2, s3));
                assert(D::extracts(*req, s3, g3, s4));
                assert(E::extracts(*req, s4, g4, s5));
                assert(F::extracts(*req, s5, g5, s6));
                return Err(out);
            },
        };
        let r6 = G::from_request(req, payload);
        let ghost s7 = payload.chunks@;
        let ghost g6 = r6;
        let v6 = match r6 {
            Ok(v) => v,
            Err(e) => {
                let out = G::error_into(e);
                assert(A::extracts(*req, s0, g0, s1));
                assert(B::extracts(*req, s1, g1, s2));
                assert(C::extracts(*req, s2, g2, s3));
                assert(D::extracts(*req, s3, g3, s4));
                assert(E::extracts(*req, s4, g4, s5));
                assert(F::extracts(*req, s5, g5, s6));
                assert(G::extracts(*req, s6, g6, s7));
                return Err(out);
            },
        };
        let r7 = H::from_request(req, payload);
        let ghost s8 = payload.chunks@;
        let ghost g7 = r7;
        let v7 = match r7 {
            Ok(v) => v,
            Err(e) => {
                let out = H::error_into(e);
                assert(A::extracts(*req, s0, g0, s1));
                assert(B::extracts(*req, s1, g1, s2));
                assert(C::extracts(*req, s2, g2, s3));
                assert(D::extracts(*req, s3, g3, s4));
                assert(E::extracts(*req, s4, g4, s5));
                assert(F::extracts(*req, s5, g5, s6));
                assert(G::extracts(*req, s6, g6, s7));
                assert(H::extracts(*req, s7, g7, s8));
                return Err(out);
            },
        };
        let r8 = I::from_request(req, payload);
        let ghost s9 = payload.chunks@;
        let ghost g8 = r8;
        let v8 = match r8 {
            Ok(v) => v,
            Err(e) => {
                let out = I::error_into(e);
                assert(A::extracts(*req, s0, g0, s1));
                assert(B::extracts(*req, s1, g1, s2));
                assert(C::extracts(*req, s2, g2, s3));
                assert(D::extracts(*req, s3, g3, s4));
                assert(E::extracts(*req, s4, g4, s5));
                assert(F::extracts(*req, s5, g5, s6));
                assert(G::extracts(*req, s6, g6, s7));
                assert(H::extracts(*req, s7, g7, s8));
                assert(I::extracts(*req, s8, g8, s9));
                return Err(out);
            },
        };
        let r9 = J::from_request(req, payload);
        let ghost s10 = payload.chunks@;
        let ghost g9 = r9;
        let v9 = match r9 {
            Ok(v) => v,
            Err(e) => {
                let out = J::error_into(e);
                assert(A::extracts(*req, s0, g0, s1));
                assert(B::extracts(*req, s1, g1, s2));
                assert(C::extracts(*req, s2, g2, s3));
                assert(D::extracts(*req, s3, g3, s4));
                assert(E::extracts(*req, s4, g4, s5));
                assert(F::extracts(*req, s5, g5, s6));
                assert(G::extracts(*req, s6, g6, s7));
                assert(H::extracts(*req, s7, g7, s8));
                assert(I::extracts(*req, s8, g8, s9));
                assert(J::extracts(*req, s9, g9, s10));
                return Err(out);
            },
        };
        assert(A::extracts(*req, s0, g0, s1));
        assert(B::extracts(*req, s1, g1, s2));
        assert(C::extracts(*req, s2, g2, s3));
        assert(D::extracts(*req, s3, g3, s4));
        assert(E::extracts(*req, s4, g4, s5));
        assert(F::extracts(*req, s5, g5, s6));
        assert(G::extracts(*req, s6, g6, s7));
        assert(H::extracts(*req, s7, g7, s8));
        assert(I::extracts(*req, s8, g8, s9));
        assert(J::extracts(*req, s9, g9, s10));
        Ok((v0, v1, v2, v3, v4, v5, v6, v7, v8, v9))
    }

    fn error_into(e: PipelineError) -> (r: PipelineError) {
        e
    }
}

/// The limit on a body buffered whole.
pub const BODY_LIMIT: usize = 262_144;

/// The whole body as bytes, refused once it passes `BODY_LIMIT`.
impl FromRequest for Vec<u8> {
    type Rejection = PipelineError;

    open spec fn extracts(req: HttpRequest, before: Seq<Vec<u8>>, r: Result<Vec<u8>, PipelineError>, after: Seq<Vec<u8>>) -> bool {
        &&& after.len() == 0
        &&& match gather(before, BODY_LIMIT) {
            Ok(buf) => r matches Ok(v) && v@ == buf,
            Err(_) => r matches Err(e) && e.status == STATUS_PAYLOAD_TOO_LARGE,
        }
    }

    open spec fn converts(e: PipelineError, out: PipelineError) -> bool {
        out == e
    }

    fn from_request(req: &HttpRequest, payload: &mut Payload) -> (r: Result<Vec<u8>, PipelineError>) {
        let stream = payload.take();
        match crate::form::gather_chunks(&stream, BODY_LIMIT) {
            Ok(buf) => Ok(buf),
            Err(_) => Err(PipelineError::new(STATUS_PAYLOAD_TOO_LARGE, "Payload reached size limit")),
        }
    }

    fn error_into(e: PipelineError) -> (r: PipelineError) {
        e
    }
}

/// Optional extraction never fails: whatever `T` does, `Option<T>` succeeds, with `None`
/// exactly where `T` failed.
pub proof fn lemma_option_never_fails<T: FromRequest>(
    req: HttpRequest,
    before: Seq<Vec<u8>>,
    r: Result<Option<T>, PipelineError>,
    after: Seq<Vec<u8>>,
)
    requires
        <Option<T> as FromRequest>::extracts(req, before, r, after),
    ensures
        r is Ok,
        exists|inner: Result<T, T::Rejection>| #[trigger] T::extracts(req, before, inner, after)
            && (inner is Err <==> r == Ok::<Option<T>, PipelineError>(None)),
{
}

/// Tuple members are extracted left to right, and the first failure ends extraction:
/// when `A` succeeds and `B` then fails, the result is `B`'s error and the body is left
/// as `B` left it, whatever `C` would have done.
pub proof fn lemma_tuple_stops_at_failure<A: FromRequest, B: FromRequest, C: FromRequest>(
    req: HttpRequest,
    before: Seq<Vec<u8>>,
    r: Result<(A, B, C), PipelineError>,
    after: Seq<Vec<u8>>,
)
    requires
        <(A, B, C) as FromRequest>::extracts(req, before, r, after),
    ensures
        exists|ra: Result<A, A::Rejection>, mid: Seq<Vec<u8>>| {
            &&& #[trigger] A::extracts(req, before, ra, mid)
            &&& (ra is Err ==> r is Err && after == mid)
            &&& (ra is Ok ==> exists|rb: Result<B, B::Rejection>, mid2: Seq<Vec<u8>>| {
                &&& #[trigger] B::extracts(req, mid, rb, mid2)
                &&& (rb matches Err(e) ==> after == mid2 && (r matches Err(out) && B::converts(e, out)))
            })
        },
{
    let (ra, mid) = choose|ra: Result<A, A::Rejection>, mid: Seq<Vec<u8>>| {
        &&& #[trigger] A::extracts(req, before, ra, mid)
        &&& match ra {
            Err(e) => after == mid && (r matches Err(out) && A::converts(e, out)),
            Ok(a) => exists|rb: Result<B, B::Rejection>, mid2: Seq<Vec<u8>>| {
                &&& #[trigger] B::extracts(req, mid, rb, mid2)
                &&& match rb {
                    Err(e) => after == mid2 && (r matches Err(out) && B::converts(e, out)),
                    Ok(b) => exists|rc: Result<C, C::Rejection>| {
                        &&& #[trigger] C::extracts(req, mid2, rc, after)
                        &&& match rc {
                            Err(e) => r matches Err(out) && C::converts(e, out),
                            Ok(c) => r == Ok::<(A, B, C), PipelineError>((a, b, c)),
                        }
                    },
                }
            },
        }
    };
    assert(A::extracts(req, before, ra, mid));
}

/// The same law for 4 members: a failure of the first or second member ends
/// extraction, with the body as that member left it.
pub proof fn lemma_tuple4_stops_at_failure<A: FromRequest, B: FromRequest, C: FromRequest, D: FromRequest>(
    req: HttpRequest,
    before: Seq<Vec<u8>>,
    r: Result<(A, B, C, D), PipelineError>,
    after: Seq<Vec<u8>>,
)
    requires
        <(A, B, C, D) as FromRequest>::extracts(req, before, r, after),
    ensures
        exists|ra: Result<A, A::Rejection>, mid: Seq<Vec<u8>>| {
            &&& #[trigger] A::extracts(req, before, ra, mid)
            &&& (ra is Err ==> r is Err && after == mid)
            &&& (ra is Ok ==> exists|rb: Result<B, B::Rejection>, mid2: Seq<Vec<u8>>| {
                &&& #[trigger] B::extracts(req, mid, rb, mid2)
                &&& (rb matches Err(e) ==> after == mid2 && (r matches Err(out) && B::converts(e, out)))
            })
        },
{
    let (r0, s1) = choose|r0: Result<A, A::Rejection>, s1: Seq<Vec<u8>>| {
        &&& #[trigger] A::extracts(req, before, r0, s1)
        &&& match r0 {
            Err(e) => after == s1 && (r matches Err(out) && A::converts(e, out)),
            Ok(v0) => exists|r1: Result<B, B::Rejection>, s2: Seq<Vec<u8>>| {
                &&& #[trigger] B::extracts(req, s1, r1, s2)
                &&& match r1 {
                    Err(e) => after == s2 && (r matches Err(out) && B::converts(e, out)),
                    Ok(v1) => exists|r2: Result<C, C::Rejection>, s3: Seq<Vec<u8>>| {
                        &&& #[trigger] C::extracts(req, s2, r2, s3)
                        &&& match r2 {
                            Err(e) => after == s3 && (r matches Err(out) && C::converts(e, out)),
                            Ok(v2) => exists|r3: Result<D, D::Rejection>| {
                                &&& #[trigger] D::extracts(req, s3, r3, after)
                                &&& match r3 {
                                    Err(e) => r matches Err(out) && D::converts(e, out),
                                    Ok(v3) => r == Ok::<(A, B, C, D), PipelineError>((v0, v1, v2, v3)),
                                }
                            },
                        }
                    },
                }
            },
        }
    };
    assert(A::extracts(req, before, r0, s1));
}

/// The same law for 5 members: a failure of the first or second member ends
/// extraction, with the body as that member left it.
pub proof fn lemma_tuple5_stops_at_failure<A: FromRequest, B: FromRequest, C: FromRequest, D: FromRequest, E: FromRequest>(
    req: HttpRequest,
    before: Seq<Vec<u8>>,
    r: Result<(A, B, C, D, E), PipelineError>,
    after: Seq<Vec<u8>>,
)
    requires
        <(A, B, C, D, E) as FromRequest>::extracts(req, before, r, after),
    ensures
        exists|ra: Result<A, A::Rejection>, mid: Seq<Vec<u8>>| {
            &&& #[trigger] A::extracts(req, before, ra, mid)
            &&& (ra is Err ==> r is Err && after == mid)
            &&& (ra is Ok ==> exists|rb: Result<B, B::Rejection>, mid2: Seq<Vec<u8>>| {
                &&& #[trigger] B::extracts(req, mid, rb, mid2)
                &&& (rb matches Err(e) ==> after == mid2 && (r matches Err(out) && B::converts(e, out)))
            })
        },
{
    let (r0, s1) = choose|r0: Result<A, A::Rejection>, s1: Seq<Vec<u8>>| {
        &&& #[trigger] A::extracts(req, before, r0, s1)
        &&& match r0 {
            Err(e) => after == s1 && (r matches Err(out) && A::converts(e, out)),
            Ok(v0) => exists|r1: Result<B, B::Rejection>, s2: Seq<Vec<u8>>| {
                &&& #[trigger] B::extracts(req, s1, r1, s2)
                &&& match r1 {
                    Err(e) => after == s2 && (r matches Err(out) && B::converts(e, out)),
                    Ok(v1) => exists|r2: Result<C, C::Rejection>, s3: Seq<Vec<u8>>| {
                        &&& #[trigger] C::extracts(req, s2, r2, s3)
                        &&& match r2 {
                            Err(e) => after == s3 && (r matches Err(out) && C::converts(e, out)),
                            Ok(v2) => exists|r3: Result<D, D::Rejection>, s4: Seq<Vec<u8>>| {
                                &&& #[trigger] D::extracts(req, s3, r3, s4)
                                &&& match r3 {
                                    Err(e) => after == s4 && (r matches Err(out) && D::converts(e, out)),
                                    Ok(v3) => exists|r4: Result<E, E::Rejection>| {
                                        &&& #[trigger] E::extracts(req, s4, r4, after)
                                        &&& match r4 {
                                            Err(e) => r matches Err(out) && E::converts(e, out),
                                            Ok(v4) => r == Ok::<(A, B, C, D, E), PipelineError>((v0, v1, v2, v3, v4)),
                                        }
                                    },
                                }
                            },
                        }
                    },
                }
            },
        }
    };
    assert(A::extracts(req, before, r0, s1));
}

/// The same law for 6 members: a failure of the first or second member ends
/// extraction, with the body as that member left it.
pub proof fn lemma_tuple6_stops_at_failure<A: FromRequest, B: FromRequest, C: FromRequest, D: FromRequest, E: FromRequest, F: FromRequest>(
    req: HttpRequest,
    before: Seq<Vec<u8>>,
    r: Result<(A, B, C, D, E, F), PipelineError>,
    after: Seq<Vec<u8>>,
)
    requires
        <(A, B, C, D, E, F) as FromRequest>::extracts(req, before, r, after),
    ensures
        exists|ra: Result<A, A::Rejection>, mid: Seq<Vec<u8>>| {
            &&& #[trigger] A::extracts(req, before, ra, mid)
            &&& (ra is Err ==> r is Err && after == mid)
            &&& (ra is Ok ==> exists|rb: Result<B, B::Rejection>, mid2: Seq<Vec<u8>>| {
                &&& #[trigger] B::extracts(req, mid, rb, mid2)
                &&& (rb matches Err(e) ==> after == mid2 && (r matches Err(out) && B::converts(e, out)))
            })
        },
{
    let (r0, s1) = choose|r0: Result<A, A::Rejection>, s1: Seq<Vec<u8>>| {
        &&& #[trigger] A::extracts(req, before, r0, s1)
        &&& match r0 {
            Err(e) => after == s1 && (r matches Err(out) && A::converts(e, out)),
            Ok(v0) => exists|r1: Result<B, B::Rejection>, s2: Seq<Vec<u8>>| {
                &&& #[trigger] B::extracts(req, s1, r1, s2)
                &&& match r1 {
                    Err(e) => after == s2 && (r matches Err(out) && B::converts(e, out)),
                    Ok(v1) => exists|r2: Result<C, C::Rejection>, s3: Seq<Vec<u8>>| {
                        &&& #[trigger] C::extracts(req, s2, r2, s3)
                        &&& match r2 {
                            Err(e) => after == s3 && (r matches Err(out) && C::converts(e, out)),
                            Ok(v2) => exists|r3: Result<D, D::Rejection>, s4: Seq<Vec<u8>>| {
                                &&& #[trigger] D::extracts(req, s3, r3, s4)
                                &&& match r3 {
                                    Err(e) => after == s4 && (r matches Err(out) && D::converts(e, out)),
                                    Ok(v3) => exists|r4: Result<E, E::Rejection>, s5: Seq<Vec<u8>>| {
                                        &&& #[trigger] E::extracts(req, s4, r4, s5)
                                        &&& match r4 {
                                            Err(e) => after == s5 && (r matches Err(out) && E::converts(e, out)),
                                            Ok(v4) => exists|r5: Result<F, F::Rejection>| {
                                                &&& #[trigger] F::extracts(req, s5, r5, after)
                                                &&& match r5 {
                                                    Err(e) => r matches Err(out) && F::converts(e, out),
                                                    Ok(v5) => r == Ok::<(A, B, C, D, E, F), PipelineError>((v0, v1, v2, v3, v4, v5)),
                                                }
                                            },
                                        }
                                    },
                                }
                            },
                        }
                    },
                }
            },
        }
    };
    assert(A::extracts(req, before, r0, s1));
}

/// The same law for 7 members: a failure of the first or second member ends
/// extraction, with the body as that member left it.
pub proof fn lemma_tuple7_stops_at_failure<A: FromRequest, B: FromRequest, C: FromRequest, D: FromRequest, E: FromRequest, F: FromRequest, G: FromRequest>(
    req: HttpRequest,
    before: Seq<Vec<u8>>,
    r: Result<(A, B, C, D, E, F, G), PipelineError>,
    after: Seq<Vec<u8>>,
)
    requires
        <(A, B, C, D, E, F, G) as FromRequest>::extracts(req, before, r, after),
    ensures
        exists|ra: Result<A, A::Rejection>, mid: Seq<Vec<u8>>| {
            &&& #[trigger] A::extracts(req, before, ra, mid)
            &&& (ra is Err ==> r is Err && after == mid)
            &&& (ra is Ok ==> exists|rb: Result<B, B::Rejection>, mid2: Seq<Vec<u8>>| {
                &&& #[trigger] B::extracts(req, mid, rb, mid2)
                &&& (rb matches Err(e) ==> after == mid2 && (r matches Err(out) && B::converts(e, out)))
            })
        },
{
    let (r0, s1) = choose|r0: Result<A, A::Rejection>, s1: Seq<Vec<u8>>| {
        &&& #[trigger] A::extracts(req, before, r0, s1)
        &&& match r0 {
            Err(e) => after == s1 && (r matches Err(out) && A::converts(e, out)),
            Ok(v0) => exists|r1: Result<B, B::Rejection>, s2: Seq<Vec<u8>>| {
                &&& #[trigger] B::extracts(req, s1, r1, s2)
                &&& match r1 {
                    Err(e) => after == s2 && (r matches Err(out) && B::converts(e, out)),
                    Ok(v1) => exists|r2: Result<C, C::Rejection>, s3: Seq<Vec<u8>>| {
                        &&& #[trigger] C::extracts(req, s2, r2, s3)
                        &&& match r2 {
                            Err(e) => after == s3 && (r matches Err(out) && C::converts(e, out)),
                            Ok(v2) => exists|r3: Result<D, D::Rejection>, s4: Seq<Vec<u8>>| {
                                &&& #[trigger] D::extracts(req, s3, r3, s4)
                                &&& match r3 {
                                    Err(e) => after == s4 && (r matches Err(out) && D::converts(e, out)),
                                    Ok(v3) => exists|r4: Result<E, E::Rejection>, s5: Seq<Vec<u8>>| {
                                        &&& #[trigger] E::extracts(req, s4, r4, s5)
                                        &&& match r4 {
                                            Err(e) => after == s5 && (r matches Err(out) && E::converts(e, out)),
                                            Ok(v4) => exists|r5: Result<F, F::Rejection>, s6: Seq<Vec<u8>>| {
                                                &&& #[trigger] F::extracts(req, s5, r5, s6)
                                                &&& match r5 {
                                                    Err(e) => after == s6 && (r matches Err(out) && F::converts(e, out)),
                                                    Ok(v5) => exists|r6: Result<G, G::Rejection>| {
                                                        &&& #[trigger] G::extracts(req, s6, r6, after)
                                                        &&& match r6 {
                                                            Err(e) => r matches Err(out) && G::converts(e, out),
                                                            Ok(v6) => r == Ok::<(A, B, C, D, E, F, G), PipelineError>((v0, v1, v2, v3, v4, v5, v6)),
                                                        }
                                                    },
                                                }
                                            },
                                        }
                                    },
                                }
                            },
                        }
                    },
                }
            },
        }
    };
    assert(A::extracts(req, before, r0, s1));
}

/// The same law for 8 members: a failure of the first or second member ends
/// extraction, with the body as that member left it.
pub proof fn lemma_tuple8_stops_at_failure<A: FromRequest, B: FromRequest, C: FromRequest, D: FromRequest, E: FromRequest, F: FromRequest, G: FromRequest, H: FromRequest>(
    req: HttpRequest,
    before: Seq<Vec<u8>>,
    r: Result<(A, B, C, D, E, F, G, H), PipelineError>,
    after: Seq<Vec<u8>>,
)
    requires
        <(A, B, C, D, E, F, G, H) as FromRequest>::extracts(req, before, r, after),
    ensures
        exists|ra: Result<A, A::Rejection>, mid: Seq<Vec<u8>>| {
            &&& #[trigger] A::extracts(req, before, ra, mid)
            &&& (ra is Err ==> r is Err && after == mid)
            &&& (ra is Ok ==> exists|rb: Result<B, B::Rejection>, mid2: Seq<Vec<u8>>| {
                &&& #[trigger] B::extracts(req, mid, rb, mid2)
                &&& (rb matches Err(e) ==> after == mid2 && (r matches Err(out) && B::converts(e, out)))
            })
        },
{
    let (r0, s1) = choose|r0: Result<A, A::Rejection>, s1: Seq<Vec<u8>>| {
        &&& #[trigger] A::extracts(req, before, r0, s1)
        &&& match r0 {
            Err(e) => after == s1 && (r matches Err(out) && A::converts(e, out)),
            Ok(v0) => exists|r1: Result<B, B::Rejection>, s2: Seq<Vec<u8>>| {
                &&& #[trigger] B::extracts(req, s1, r1, s2)
                &&& match r1 {
                    Err(e) => after == s2 && (r matches Err(out) && B::converts(e, out)),
                    Ok(v1) => exists|r2: Result<C, C::Rejection>, s3: Seq<Vec<u8>>| {
                        &&& #[trigger] C::extracts(req, s2, r2, s3)
                        &&& match r2 {
                            Err(e) => after == s3 && (r matches Err(out) && C::converts(e, out)),
                            Ok(v2) => exists|r3: Result<D, D::Rejection>, s4: Seq<Vec<u8>>| {
                                &&& #[trigger] D::extracts(req, s3, r3, s4)
                                &&& match r3 {
                                    Err(e) => after == s4 && (r matches Err(out) && D::converts(e, out)),
                                    Ok(v3) => exists|r4: Result<E, E::Rejection>, s5: Seq<Vec<u8>>| {
                                        &&& #[trigger] E::extracts(req, s4, r4, s5)
                                        &&& match r4 {
                                            Err(e) => after == s5 && (r matches Err(out) && E::converts(e, out)),
                                            Ok(v4) => exists|r5: Result<F, F::Rejection>, s6: Seq<Vec<u8>>| {
                                                &&& #[trigger] F::extracts(req, s5, r5, s6)
                                                &&& match r5 {
                                                    Err(e) => after == s6 && (r matches Err(out) && F::converts(e, out)),
                                                    Ok(v5) => exists|r6: Result<G, G::Rejection>, s7: Seq<Vec<u8>>| {
                                                        &&& #[trigger] G::extracts(req, s6, r6, s7)
                                                        &&& match r6 {
                                                            Err(e) => after == s7 && (r matches Err(out) && G::converts(e, out)),
                                                            Ok(v6) => exists|r7: Result<H, H::Rejection>| {
                                                                &&& #[trigger] H::extracts(req, s7, r7, after)
                                                                &&& match r7 {
                                                                    Err(e) => r matches Err(out) && H::converts(e, out),
                                                                    Ok(v7) => r == Ok::<(A, B, C, D, E, F, G, H), PipelineError>((v0, v1, v2, v3, v4, v5, v6, v7)),
                                                                }
                                                            },
                                                        }
                                                    },
                                                }
                                            },
                                        }
                                    },
                                }
                            },
                        }
                    },
                }
            },
        }
    };
    assert(A::extracts(req, before, r0, s1));
}

/// The same law for 9 members: a failure of the first or second member ends
/// extraction, with the body as that member left it.
pub proof fn lemma_tuple9_stops_at_failure<A: FromRequest, B: FromRequest, C: FromRequest, D: FromRequest, E: FromRequest, F: FromRequest, G: FromRequest, H: FromRequest, I: FromRequest>(
    req: HttpRequest,
    before: Seq<Vec<u8>>,
    r: Result<(A, B, C, D, E, F, G, H, I), PipelineError>,
    after: Seq<Vec<u8>>,
)
    requires
        <(A, B, C, D, E, F, G, H, I) as FromRequest>::extracts(req, before, r, after),
    ensures
        exists|ra: Result<A, A::Rejection>, mid: Seq<Vec<u8>>| {
            &&& #[trigger] A::extracts(req, before, ra, mid)
            &&& (ra is Err ==> r is Err && after == mid)
            &&& (ra is Ok ==> exists|rb: Result<B, B::Rejection>, mid2: Seq<Vec<u8>>| {
                &&& #[trigger] B::extracts(req, mid, rb, mid2)
                &&& (rb matches Err(e) ==> after == mid2 && (r matches Err(out) && B::converts(e, out)))
            })
        },
{
    let (r0, s1) = choose|r0: Result<A, A::Rejection>, s1: Seq<Vec<u8>>| {
        &&& #[trigger] A::extracts(req, before, r0, s1)
        &&& match r0 {
            Err(e) => after == s1 && (r matches Err(out) && A::converts(e, out)),
            Ok(v0) => exists|r1: Result<B, B::Rejection>, s2: Seq<Vec<u8>>| {
                &&& #[trigger] B::extracts(req, s1, r1, s2)
                &&& match r1 {
                    Err(e) => after == s2 && (r matches Err(out) && B::converts(e, out)),
                    Ok(v1) => exists|r2: Result<C, C::Rejection>, s3: Seq<Vec<u8>>| {
                        &&& #[trigger] C::extracts(req, s2, r2, s3)
                        &&& match r2 {
                            Err(e) => after == s3 && (r matches Err(out) && C::converts(e, out)),
                            Ok(v2) => exists|r3: Result<D, D::Rejection>, s4: Seq<Vec<u8>>| {
                                &&& #[trigger] D::extracts(req, s3, r3, s4)
                                &&& match r3 {
                                    Err(e) => after == s4 && (r matches Err(out) && D::converts(e, out)),
                                    Ok(v3) => exists|r4: Result<E, E::Rejection>, s5: Seq<Vec<u8>>| {
                                        &&& #[trigger] E::extracts(req, s4, r4, s5)
                                        &&& match r4 {
                                            Err(e) => after == s5 && (r matches Err(out) && E::converts(e, out)),
                                            Ok(v4) => exists|r5: Result<F, F::Rejection>, s6: Seq<Vec<u8>>| {
                                                &&& #[trigger] F::extracts(req, s5, r5, s6)
                                                &&& match r5 {
                                                    Err(e) => after == s6 && (r matches Err(out) && F::converts(e, out)),
                                                    Ok(v5) => exists|r6: Result<G, G::Rejection>, s7: Seq<Vec<u8>>| {
                                                        &&& #[trigger] G::extracts(req, s6, r6, s7)
                                                        &&& match r6 {
                                                            Err(e) => after == s7 && (r matches Err(out) && G::converts(e, out)),
                                                            Ok(v6) => exists|r7: Result<H, H::Rejection>, s8: Seq<Vec<u8>>| {
                                                                &&& #[trigger] H::extracts(req, s7, r7, s8)
                                                                &&& match r7 {
                                                                    Err(e) => after == s8 && (r matches Err(out) && H::converts(e, out)),
                                                                    Ok(v7) => exists|r8: Result<I, I::Rejection>| {
                                                                        &&& #[trigger] I::extracts(req, s8, r8, after)
                                                                        &&& match r8 {
                                                                            Err(e) => r matches Err(out) && I::converts(e, out),
                                                                            Ok(v8) => r == Ok::<(A, B, C, D, E, F, G, H, I), PipelineError>((v0, v1, v2, v3, v4, v5, v6, v7, v8)),
                                                                        }
                                                                    },
                                                                }
                                                            },
                                                        }
                                                    },
                                                }
                                            },
                                        }
                                    },
                                }
                            },
                        }
                    },
                }
            },
        }
    };
    assert(A::extracts(req, before, r0, s1));
}

/// The same law for 10 members: a failure of the first or second member ends
/// extraction, with the body as that member left it.
pub proof fn lemma_tuple10_stops_at_failure<A: FromRequest, B: FromRequest, C: FromRequest, D: FromRequest, E: FromRequest, F: FromRequest, G: FromRequest, H: FromRequest, I: FromRequest, J: FromRequest>(
    req: HttpRequest,
    before: Seq<Vec<u8>>,
    r: Result<(A, B, C, D, E, F, G, H, I, J), PipelineError>,
    after: Seq<Vec<u8>>,
)
    requires
        <(A, B, C, D, E, F, G, H, I, J) as FromRequest>::extracts(req, before, r, after),
    ensures
        exists|ra: Result<A, A::Rejection>, mid: Seq<Vec<u8>>| {
            &&& #[trigger] A::extracts(req, before, ra, mid)
            &&& (ra is Err ==> r is Err && after == mid)
            &&& (ra is Ok ==> exists|rb: Result<B, B::Rejection>, mid2: Seq<Vec<u8>>| {
                &&& #[trigger] B::extracts(req, mid, rb, mid2)
                &&& (rb matches Err(e) ==> after == mid2 && (r matches Err(out) && B::converts(e, out)))
            })
        },
{
    let (r0, s1) = choose|r0: Result<A, A::Rejection>, s1: Seq<Vec<u8>>| {
        &&& #[trigger] A::extracts(req, before, r0, s1)
        &&& match r0 {
            Err(e) => after == s1 && (r matches Err(out) && A::converts(e, out)),
            Ok(v0) => exists|r1: Result<B, B::Rejection>, s2: Seq<Vec<u8>>| {
                &&& #[trigger] B::extracts(req, s1, r1, s2)
                &&& match r1 {
                    Err(e) => after == s2 && (r matches Err(out) && B::converts(e, out)),
                    Ok(v1) => exists|r2: Result<C, C::Rejection>, s3: Seq<Vec<u8>>| {
                        &&& #[trigger] C::extracts(req, s2, r2, s3)
                        &&& match r2 {
                            Err(e) => after == s3 && (r matches Err(out) && C::converts(e, out)),
                            Ok(v2) => exists|r3: Result<D, D::Rejection>, s4: Seq<Vec<u8>>| {
                                &&& #[trigger] D::extracts(req, s3, r3, s4)
                                &&& match r3 {
                                    Err(e) => after == s4 && (r matches Err(out) && D::converts(e, out)),
                                    Ok(v3) => exists|r4: Result<E, E::Rejection>, s5: Seq<Vec<u8>>| {
                                        &&& #[trigger] E::extracts(req, s4, r4, s5)
                                        &&& match r4 {
                                            Err(e) => after == s5 && (r matches Err(out) && E::converts(e, out)),
                                            Ok(v4) => exists|r5: Result<F, F::Rejection>, s6: Seq<Vec<u8>>| {
                                                &&& #[trigger] F::extracts(req, s5, r5, s6)
                                                &&& match r5 {
                                                    Err(e) => after == s6 && (r matches Err(out) && F::converts(e, out)),
                                                    Ok(v5) => exists|r6: Result<G, G::Rejection>, s7: Seq<Vec<u8>>| {
                                                        &&& #[trigger] G::extracts(req, s6, r6, s7)
                                                        &&& match r6 {
                                                            Err(e) => after == s7 && (r matches Err(out) && G::converts(e, out)),
                                                            Ok(v6) => exists|r7: Result<H, H::Rejection>, s8: Seq<Vec<u8>>| {
                                                                &&& #[trigger] H::extracts(req, s7, r7, s8)
                                                                &&& match r7 {
                                                                    Err(e) => after == s8 && (r matches Err(out) && H::converts(e, out)),
                                                                    Ok(v7) => exists|r8: Result<I, I::Rejection>, s9: Seq<Vec<u8>>| {
                                                                        &&& #[trigger] I::extracts(req, s8, r8, s9)
                                                                        &&& match r8 {
                                                                            Err(e) => after == s9 && (r matches Err(out) && I::converts(e, out)),
                                                                            Ok(v8) => exists|r9: Result<J, J::Rejection>| {
                                                                                &&& #[trigger] J::extracts(req, s9, r9, after)
                                                                                &&& match r9 {
                                                                                    Err(e) => r matches Err(out) && J::converts(e, out),
                                                                                    Ok(v9) => r == Ok::<(A, B, C, D, E, F, G, H, I, J), PipelineError>((v0, v1, v2, v3, v4, v5, v6, v7, v8, v9)),
                                                                                }
                                                                            },
                                                                        }
                                                                    },
                                                                }
                                                            },
                                                        }
                                                    },
                                                }
                                            },
                                        }
                                    },
                                }
                            },
                        }
                    },
                }
            },
        }
    };
    assert(A::extracts(req, before, r0, s1));
}

} // verus!
