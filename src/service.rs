//! Services (asynchronous request-to-response functions with readiness) and
//! transforms (factories that wrap one service into another).
use vstd::prelude::*;
use crate::message::{is_error_response, response_from_error, PipelineError, HttpRequest, Payload, Response};

verus! {

/// A request-handling stage. `serves` relates a request to each outcome the stage may
/// produce for it; `readiness` relates the stage to each readiness report it may give.
pub trait Service {
    type Request;
    type Response;
    type Failure;

    spec fn readiness(&self, r: Result<bool, Self::Failure>) -> bool;

    spec fn serves(&self, req: Self::Request, res: Result<Self::Response, Self::Failure>) -> bool;

    /// `Ok(true)`: ready for a request; `Ok(false)`: not yet, poll again later.
    fn poll_ready(&self) -> (r: Result<bool, Self::Failure>)
        ensures
            self.readiness(r),
    ;

    fn call(&self, req: Self::Request) -> (r: Result<Self::Response, Self::Failure>)
        ensures
            self.serves(req, r),
    ;
}

/// A middleware factory: wraps a service `S` into a new service.
pub trait Transform<S> {
    type Transform;
    type InitError;

    spec fn builds(&self, inner: S, r: Result<Self::Transform, Self::InitError>) -> bool;

    fn new_transform(&self, inner: S) -> (r: Result<Self::Transform, Self::InitError>)
        ensures
            self.builds(inner, r),
    ;
}

/// The unit that enters a pipeline stage: the request and its unconsumed body.
pub struct ServiceRequest {
    pub req: HttpRequest,
    pub payload: Payload,
}

/// The unit that leaves a pipeline stage: the request and the response made for it.
pub struct ServiceResponse {
    pub req: HttpRequest,
    pub res: Response,
}

/// A service behind shared ownership: clones are handles to the same service, so one
/// built pipeline serves many requests without being built again.
pub struct CloneableService<T> {
    inner: std::rc::Rc<T>,
}

impl<T: Service> CloneableService<T> {
    /// The service that every handle reaches.
    pub closed spec fn service(self) -> T {
        *self.inner
    }

    pub fn new(service: T) -> (r: CloneableService<T>)
        ensures
            r.service() == service,
    {
        CloneableService { inner: std::rc::Rc::new(service) }
    }

    /// Another handle to the same service.
    pub fn handle(&self) -> (r: CloneableService<T>)
        ensures
            r.service() == self.service(),
    {
        CloneableService { inner: std::rc::Rc::clone(&self.inner) }
    }
}

impl<T: Service> Service for CloneableService<T> {
    type Request = T::Request;
    type Response = T::Response;
    type Failure = T::Failure;

    open spec fn readiness(&self, r: Result<bool, T::Failure>) -> bool {
        self.service().readiness(r)
    }

    open spec fn serves(&self, req: T::Request, res: Result<T::Response, T::Failure>) -> bool {
        self.service().serves(req, res)
    }

    fn poll_ready(&self) -> (r: Result<bool, T::Failure>) {
        self.inner.poll_ready()
    }

    fn call(&self, req: T::Request) -> (r: Result<T::Response, T::Failure>) {
        self.inner.call(req)
    }
}

impl ServiceRequest {
    /// Splits into the request and its body.
    pub fn into_parts(self) -> (r: (HttpRequest, Payload))
        ensures
            r == (self.req, self.payload),
    {
        (self.req, self.payload)
    }

    /// Short-circuits into a response made from `err`, without running any handler.
    pub fn error_response(self, err: PipelineError) -> (r: ServiceResponse)
        ensures
            r.req == self.req,
            is_error_response(r.res, err),
    {
        ServiceResponse { req: self.req, res: response_from_error(err) }
    }
}

} // verus!
