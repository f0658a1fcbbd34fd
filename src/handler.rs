//! The handler adapter: an application function bound to argument extraction and to
//! the response protocol, as one service.
use vstd::prelude::*;
use crate::extract::FromRequest;
use crate::message::{is_error_response, response_from_error, PipelineError};
use crate::responder::Responder;
use crate::service::{Service, ServiceRequest, ServiceResponse};

verus! {

/// An application function taking its arguments as the tuple `T`. `accepts` is what
/// it asks of its arguments, `gives` relates arguments to each result.
pub trait Factory<T, O> {
    spec fn accepts(&self, args: T) -> bool;

    spec fn gives(&self, args: T, out: O) -> bool;

    fn call(&self, args: T) -> (out: O)
        requires
            self.accepts(args),
        ensures
            self.gives(args, out),
    ;
}

impl<Func: Fn() -> O, O> Factory<(), O> for Func {
    open spec fn accepts(&self, args: ()) -> bool {
        self.requires(())
    }

    open spec fn gives(&self, args: (), out: O) -> bool {
        self.ensures((), out)
    }

    fn call(&self, args: ()) -> (out: O) {
        (self)()
    }
}

impl<Func: Fn(A) -> O, A, O> Factory<(A,), O> for Func {
    open spec fn accepts(&self, args: (A,)) -> bool {
        self.requires((args.0,))
    }

    open spec fn gives(&self, args: (A,), out: O) -> bool {
        self.ensures((args.0,), out)
    }

    fn call(&self, args: (A,)) -> (out: O) {
        (self)(args.0)
    }
}

impl<Func: Fn(A, B) -> O, A, B, O> Factory<(A, B), O> for Func {
    open spec fn accepts(&self, args: (A, B)) -> bool {
        self.requires((args.0, args.1))
    }

    open spec fn gives(&self, args: (A, B), out: O) -> bool {
        self.ensures((args.0, args.1), out)
    }

    fn call(&self, args: (A, B)) -> (out: O) {
        let (a, b) = args;
        (self)(a, b)
    }
}

impl<Func: Fn(A, B, C) -> O, A, B, C, O> Factory<(A, B, C), O> for Func {
    open spec fn accepts(&self, args: (A, B, C)) -> bool {
        self.requires((args.0, args.1, args.2))
    }

    open spec fn gives(&self, args: (A, B, C), out: O) -> bool {
        self.ensures((args.0, args.1, args.2), out)
    }

    fn call(&self, args: (A, B, C)) -> (out: O) {
        let (a, b, c) = args;
        (self)(a, b, c)
    }
}

impl<Func: Fn(A, B, C, D) -> O, A, B, C, D, O> Factory<(A, B, C, D), O> for Func {
    open spec fn accepts(&self, args: (A, B, C, D)) -> bool {
        self.requires((args.0, args.1, args.2, args.3))
    }

    open spec fn gives(&self, args: (A, B, C, D), out: O) -> bool {
        self.ensures((args.0, args.1, args.2, args.3), out)
    }

    fn call(&self, args: (A, B, C, D)) -> (out: O) {
        let (a, b, c, d) = args;
        (self)(a, b, c, d)
    }
}

impl<Func: Fn(A, B, C, D, E) -> O, A, B, C, D, E, O> Factory<(A, B, C, D, E), O> for Func {
    open spec fn accepts(&self, args: (A, B, C, D, E)) -> bool {
        self.requires((args.0, args.1, args.2, args.3, args.4))
    }

    open spec fn gives(&self, args: (A, B, C, D, E), out: O) -> bool {
        self.ensures((args.0, args.1, args.2, args.3, args.4), out)
    }

    fn call(&self, args: (A, B, C, D, E)) -> (out: O) {
        let (a, b, c, d, e) = args;
        (self)(a, b, c, d, e)
    }
}

impl<Func: Fn(A, B, C, D, E, F) -> O, A, B, C, D, E, F, O> Factory<(A, B, C, D, E, F), O> for Func {
    open spec fn accepts(&self, args: (A, B, C, D, E, F)) -> bool {
        self.requires((args.0, args.1, args.2, args.3, args.4, args.5))
    }

    open spec fn gives(&self, args: (A, B, C, D, E, F), out: O) -> bool {
        self.ensures((args.0, args.1, args.2, args.3, args.4, args.5), out)
    }

    fn call(&self, args: (A, B, C, D, E, F)) -> (out: O) {
        let (a, b, c, d, e, f) = args;
        (self)(a, b, c, d, e, f)
    }
}

impl<Func: Fn(A, B, C, D, E, F, G) -> O, A, B, C, D, E, F, G, O> Factory<(A, B, C, D, E, F, G), O> for Func {
    open spec fn accepts(&self, args: (A, B, C, D, E, F, G)) -> bool {
        self.requires((args.0, args.1, args.2, args.3, args.4, args.5, args.6))
    }

    open spec fn gives(&self, args: (A, B, C, D, E, F, G), out: O) -> bool {
        self.ensures((args.0, args.1, args.2, args.3, args.4, args.5, args.6), out)
    }

    fn call(&self, args: (A, B, C, D, E, F, G)) -> (out: O) {
        let (a, b, c, d, e, f, g) = args;
        (self)(a, b, c, d, e, f, g)
    }
}

impl<Func: Fn(A, B, C, D, E, F, G, H) -> O, A, B, C, D, E, F, G, H, O> Factory<(A, B, C, D, E, F, G, H), O> for Func {
    open spec fn accepts(&self, args: (A, B, C, D, E, F, G, H)) -> bool {
        self.requires((args.0, args.1, args.2, args.3, args.4, args.5, args.6, args.7))
    }

    open spec fn gives(&self, args: (A, B, C, D, E, F, G, H), out: O) -> bool {
        self.ensures((args.0, args.1, args.2, args.3, args.4, args.5, args.6, args.7), out)
    }

    fn call(&self, args: (A, B, C, D, E, F, G, H)) -> (out: O) {
        let (a, b, c, d, e, f, g, h) = args;
        (self)(a, b, c, d, e, f, g, h)
    }
}

impl<Func: Fn(A, B, C, D, E, F, G, H, I) -> O, A, B, C, D, E, F, G, H, I, O> Factory<(A, B, C, D, E, F, G, H, I), O> for Func {
    open spec fn accepts(&self, args: (A, B, C, D, E, F, G, H, I)) -> bool {
        self.requires((args.0, args.1, args.2, args.3, args.4, args.5, args.6, args.7, args.8))
    }

    open spec fn gives(&self, args: (A, B, C, D, E, F, G, H, I), out: O) -> bool {
        self.ensures((args.0, args.1, args.2, args.3, args.4, args.5, args.6, args.7, args.8), out)
    }

    fn call(&self, args: (A, B, C, D, E, F, G, H, I)) -> (out: O) {
        let (a, b, c, d, e, f, g, h, i) = args;
        (self)(a, b, c, d, e, f, g, h, i)
    }
}

impl<Func: Fn(A, B, C, D, E, F, G, H, I, J) -> O, A, B, C, D, E, F, G, H, I, J, O> Factory<(A, B, C, D, E, F, G, H, I, J), O> for Func {
    open spec fn accepts(&self, args: (A, B, C, D, E, F, G, H, I, J)) -> bool {
        self.requires((args.0, args.1, args.2, args.3, args.4, args.5, args.6, args.7, args.8, args.9))
    }

    open spec fn gives(&self, args: (A, B, C, D, E, F, G, H, I, J), out: O) -> bool {
        self.ensures((args.0, args.1, args.2, args.3, args.4, args.5, args.6, args.7, args.8, args.9), out)
    }

    fn call(&self, args: (A, B, C, D, E, F, G, H, I, J)) -> (out: O) {
        let (a, b, c, d, e, f, g, h, i, j) = args;
        (self)(a, b, c, d, e, f, g, h, i, j)
    }
}

/// Extracts the arguments `T` from each request, calls the application function and
/// turns what it returns into the response. Failures become error responses: the
/// service itself never fails.
#[verifier::reject_recursive_types(T)]
#[verifier::reject_recursive_types(O)]
pub struct Handler<F: Factory<T, O>, T: FromRequest, O: Responder> {
    hnd: F,
    _t: std::marker::PhantomData<(T, O)>,
}

impl<F: Factory<T, O>, T: FromRequest, O: Responder> Handler<F, T, O> {
    /// The function may be called with any arguments.
    #[verifier::type_invariant]
    spec fn callable(self) -> bool {
        forall|t: T| #[trigger] self.hnd.accepts(t)
    }

    /// The application function behind this handler.
    pub closed spec fn function(self) -> F {
        self.hnd
    }

    /// Binds `hnd`; it must accept any arguments.
    pub fn new(hnd: F) -> (r: Handler<F, T, O>)
        requires
            forall|t: T| #[trigger] hnd.accepts(t),
        ensures
            r.function() == hnd,
    {
        Handler { hnd, _t: std::marker::PhantomData }
    }
}

/// `res` is what the handler makes of a response outcome: the response itself, or the
/// rendering of the error.
pub open spec fn rendered(outcome: Result<crate::message::Response, PipelineError>, res: crate::message::Response) -> bool {
    match outcome {
        Ok(resp) => res == resp,
        Err(e) => is_error_response(res, e),
    }
}

impl<F: Factory<T, O>, T: FromRequest, O: Responder> Service for Handler<F, T, O> {
    type Request = ServiceRequest;
    type Response = ServiceResponse;
    type Failure = PipelineError;

    open spec fn readiness(&self, r: Result<bool, PipelineError>) -> bool {
        r == Ok::<bool, PipelineError>(true)
    }

    /// Always a response: the rendered extraction error when extraction fails (the
    /// function is not called), else what the function's result responds with, or the
    /// rendering of that error.
    open spec fn serves(&self, req: ServiceRequest, res: Result<ServiceResponse, PipelineError>) -> bool {
        res matches Ok(sr) && sr.req == req.req && exists|rt: Result<T, T::Rejection>, after: Seq<Vec<u8>>| {
            &&& #[trigger] T::extracts(req.req, req.payload.chunks@, rt, after)
            &&& match rt {
                Err(e) => exists|err: PipelineError| #[trigger] T::converts(e, err) && is_error_response(sr.res, err),
                Ok(t) => exists|o: O, out: Result<crate::message::Response, PipelineError>| {
                    &&& #[trigger] self.function().gives(t, o)
                    &&& #[trigger] o.responds(req.req, out)
                    &&& rendered(out, sr.res)
                },
            }
        }
    }

    fn poll_ready(&self) -> (r: Result<bool, PipelineError>) {
        Ok(true)
    }

    fn call(&self, req: ServiceRequest) -> (r: Result<ServiceResponse, PipelineError>) {
        proof {
            use_type_invariant(self);
        }
        let ghost req0 = req;
        let (hreq, mut payload) = req.into_parts();
        let extracted = T::from_request(&hreq, &mut payload);
        let ghost ge = extracted;
        assert(T::extracts(hreq, req0.payload.chunks@, ge, payload.chunks@));
        match extracted {
            Ok(item) => {
                let ghost gi = item;
                let o = self.hnd.call(item);
                let ghost go = o;
                let out = o.respond_to(&hreq);
                let ghost gout = out;
                let res = match out {
                    Ok(resp) => resp,
                    Err(e) => response_from_error(e),
                };
                assert(self.function().gives(gi, go));
                assert(go.responds(hreq, gout));
                Ok(ServiceResponse { req: hreq, res })
            },
            Err(e) => {
                let err = T::error_into(e);
                let ghost gerr = err;
                let res = response_from_error(err);
                assert(T::converts(ge->Err_0, gerr));
                Ok(ServiceResponse { req: hreq, res })
            },
        }
    }
}

} // verus!
