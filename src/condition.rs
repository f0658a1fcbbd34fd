//! Middleware that switches another middleware on or off, keeping one service type
//! for both cases.
use vstd::prelude::*;
use crate::service::{Service, Transform};

verus! {

/// Applies `trans` when `enable` holds; otherwise leaves the service as it is.
/// The controlled middleware must not change the service's request, response or error
/// types.
pub struct Condition<T> {
    pub trans: T,
    pub enable: bool,
}

impl<T> Condition<T> {
    pub fn new(enable: bool, trans: T) -> (r: Condition<T>)
        ensures
            r.enable == enable,
            r.trans == trans,
    {
        Condition { trans, enable }
    }
}

/// The service a `Condition` builds: the transformed service, or the untouched one.
pub enum ConditionMiddleware<E, D> {
    Enable(E),
    Disable(D),
}

impl<S, T> Transform<S> for Condition<T> where
    S: Service,
    T: Transform<S>,
    T::Transform: Service<Request = S::Request, Response = S::Response, Failure = S::Failure>,
 {
    type Transform = ConditionMiddleware<T::Transform, S>;
    type InitError = T::InitError;

    open spec fn builds(
        &self,
        inner: S,
        r: Result<ConditionMiddleware<T::Transform, S>, T::InitError>,
    ) -> bool {
        if self.enable {
            exists|t: Result<T::Transform, T::InitError>| {
                &&& #[trigger] self.trans.builds(inner, t)
                &&& match t {
                    Ok(e) => r == Ok::<ConditionMiddleware<T::Transform, S>, T::InitError>(ConditionMiddleware::Enable(e)),
                    Err(e) => r == Err::<ConditionMiddleware<T::Transform, S>, T::InitError>(e),
                }
            }
        } else {
            r == Ok::<ConditionMiddleware<T::Transform, S>, T::InitError>(ConditionMiddleware::Disable(inner))
        }
    }

    fn new_transform(&self, inner: S) -> (r: Result<ConditionMiddleware<T::Transform, S>, T::InitError>) {
        if self.enable {
            let t = self.trans.new_transform(inner);
            match t {
                Ok(e) => Ok(ConditionMiddleware::Enable(e)),
                Err(e) => Err(e),
            }
        } else {
            Ok(ConditionMiddleware::Disable(inner))
        }
    }
}

impl<E, D> Service for ConditionMiddleware<E, D> where
    E: Service,
    D: Service<Request = E::Request, Response = E::Response, Failure = E::Failure>,
 {
    type Request = E::Request;
    type Response = E::Response;
    type Failure = E::Failure;

    open spec fn readiness(&self, r: Result<bool, E::Failure>) -> bool {
        match self {
            ConditionMiddleware::Enable(s) => s.readiness(r),
            ConditionMiddleware::Disable(s) => s.readiness(r),
        }
    }

    open spec fn serves(&self, req: E::Request, res: Result<E::Response, E::Failure>) -> bool {
        match self {
            ConditionMiddleware::Enable(s) => s.serves(req, res),
            ConditionMiddleware::Disable(s) => s.serves(req, res),
        }
    }

    fn poll_ready(&self) -> (r: Result<bool, E::Failure>) {
        match self {
            ConditionMiddleware::Enable(s) => s.poll_ready(),
            ConditionMiddleware::Disable(s) => s.poll_ready(),
        }
    }

    fn call(&self, req: E::Request) -> (r: Result<E::Response, E::Failure>) {
        match self {
            ConditionMiddleware::Enable(s) => s.call(req),
            ConditionMiddleware::Disable(s) => s.call(req),
        }
    }
}

/// Switched off, a condition hands back the service unchanged, whatever middleware
/// it holds: the result serves each request exactly as the service does.
pub proof fn lemma_disabled_is_transparent<S, T>(
    c: Condition<T>,
    inner: S,
    built: Result<ConditionMiddleware<T::Transform, S>, T::InitError>,
    req: S::Request,
    res: Result<S::Response, S::Failure>,
) where
    S: Service,
    T: Transform<S>,
    T::Transform: Service<Request = S::Request, Response = S::Response, Failure = S::Failure>,

    requires
        !c.enable,
        c.builds(inner, built),
    ensures
        built matches Ok(m) && (m.serves(req, res) <==> inner.serves(req, res)),
        built matches Ok(m) && forall|rd: Result<bool, S::Failure>| m.readiness(rd) <==> inner.readiness(rd),
{
}

/// Switched on, a condition builds what its middleware builds: it fails with the
/// middleware's error, or serves each request exactly as the middleware's service does.
pub proof fn lemma_enabled_is_faithful<S, T>(
    c: Condition<T>,
    inner: S,
    built: Result<ConditionMiddleware<T::Transform, S>, T::InitError>,
    req: S::Request,
    res: Result<S::Response, S::Failure>,
) where
    S: Service,
    T: Transform<S>,
    T::Transform: Service<Request = S::Request, Response = S::Response, Failure = S::Failure>,

    requires
        c.enable,
        c.builds(inner, built),
    ensures
        exists|t: Result<T::Transform, T::InitError>| {
            &&& #[trigger] c.trans.builds(inner, t)
            &&& match t {
                Ok(e) => built matches Ok(m) && (m.serves(req, res) <==> e.serves(req, res)),
                Err(e) => built == Err::<ConditionMiddleware<T::Transform, S>, T::InitError>(e),
            }
        },
{
    let t = choose|t: Result<T::Transform, T::InitError>| {
        &&& #[trigger] c.trans.builds(inner, t)
        &&& match t {
            Ok(e) => built == Ok::<ConditionMiddleware<T::Transform, S>, T::InitError>(ConditionMiddleware::Enable(e)),
            Err(e) => built == Err::<ConditionMiddleware<T::Transform, S>, T::InitError>(e),
        }
    };
    assert(c.trans.builds(inner, t));
}

} // verus!
