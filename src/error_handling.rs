//! The error-recovery layer: every failure of the inner unit becomes a
//! response through a mapping function, so nothing but responses leaves
//! it. Also the one-shot call of an inner unit it relies on.
use crate::error::BoxError;
use crate::response::Response;
use vstd::prelude::*;

verus! {

/// Wraps an inner unit with a function from errors to responses.
#[derive(Clone, Debug)]
pub struct HandleError<S, F> {
    inner: S,
    f: F,
}

impl<S, F: Fn(BoxError) -> Response> HandleError<S, F> {
    pub closed spec fn inner(&self) -> S {
        self.inner
    }

    pub closed spec fn mapper(&self) -> F {
        self.f
    }

    pub fn new(inner: S, f: F) -> (r: HandleError<S, F>)
        ensures
            r.inner() == inner,
            r.mapper() == f,
    {
        HandleError { inner, f }
    }

    /// The wrapped unit.
    pub fn get_ref(&self) -> (r: &S)
        ensures
            *r == self.inner(),
    {
        &self.inner
    }

    /// The response for the inner unit's outcome: a response as it is, an
    /// error through the mapping function.
    pub fn recover(&self, outcome: Result<Response, BoxError>) -> (r: Response)
        requires
            forall|e: BoxError| self.mapper().requires((e,)),
        ensures
            outcome matches Ok(resp) ==> r == resp,
            outcome matches Err(e) ==> self.mapper().ensures((e,), r),
    {
        match outcome {
            Ok(resp) => resp,
            Err(e) => {
                assert(self.mapper().requires((e,)));
                (self.f)(e)
            },
        }
    }
}

/// Where a one-shot call stands.
pub enum State<S, Req> {
    /// Not called yet: the unit and the request.
    NotReady { svc: S, req: Option<Req> },
    /// Called; its outcome is awaited.
    Called,
    /// The outcome has been handed on.
    Done,
}

impl<S, Req> State<S, Req> {
    fn not_ready(svc: S, req: Option<Req>) -> (r: State<S, Req>)
        ensures
            r == (State::NotReady { svc, req }),
    {
        State::NotReady { svc, req }
    }

    fn called() -> (r: State<S, Req>)
        ensures
            r is Called,
    {
        State::Called
    }
}

/// Consumes a unit and a request: the unit is called once with it, and
/// its outcome is handed on once.
pub struct Oneshot<S, Req> {
    state: State<S, Req>,
}

impl<S, Req> Oneshot<S, Req> {
    pub closed spec fn state(&self) -> State<S, Req> {
        self.state
    }

    pub fn new(svc: S, req: Req) -> (r: Oneshot<S, Req>)
        ensures
            r.state() == (State::NotReady { svc, req: Some(req) }),
    {
        Oneshot { state: State::not_ready(svc, Some(req)) }
    }

    /// Takes the unit and the request out to make the call; afterwards the
    /// call is awaited. A one-shot is called once only.
    pub fn start(&mut self) -> (r: (S, Req))
        requires
            old(self).state() matches State::NotReady { req: Some(_), .. },
        ensures
            old(self).state() matches State::NotReady { svc, req: Some(q) } ==> r == (svc, q),
            final(self).state() is Called,
    {
        let mut st = State::called();
        std::mem::swap(&mut st, &mut self.state);
        match st {
            State::NotReady { svc, req: Some(q) } => (svc, q),
            _ => unreached(),
        }
    }

    /// Hands the call's outcome on; the one-shot is then done.
    pub fn finish<T>(&mut self, outcome: T) -> (r: T)
        requires
            old(self).state() is Called,
        ensures
            r == outcome,
            final(self).state() is Done,
    {
        self.state = State::Done;
        outcome
    }
}

} // verus!
