//! Layers that apply a function to what the inner unit yields.
use crate::error::BoxError;
use crate::response::Response;
use vstd::prelude::*;

verus! {

/// Applies a function to every response of the inner unit; errors pass.
#[derive(Clone, Debug)]
pub struct MapResponse<S, F> {
    inner: S,
    f: F,
}

impl<S, F: Fn(Response) -> Response> MapResponse<S, F> {
    pub closed spec fn inner(&self) -> S {
        self.inner
    }

    pub closed spec fn function(&self) -> F {
        self.f
    }

    pub fn new(inner: S, f: F) -> (r: MapResponse<S, F>)
        ensures
            r.inner() == inner,
            r.function() == f,
    {
        MapResponse { f, inner }
    }

    /// The wrapped unit.
    pub fn get_ref(&self) -> (r: &S)
        ensures
            *r == self.inner(),
    {
        &self.inner
    }

    /// The outcome after the function: a response mapped, an error as it
    /// is.
    pub fn map(&self, outcome: Result<Response, BoxError>) -> (r: Result<Response, BoxError>)
        requires
            forall|resp: Response| self.function().requires((resp,)),
        ensures
            outcome matches Ok(resp) ==> r matches Ok(out) && self.function().ensures((resp,), out),
            outcome is Err ==> r == outcome,
    {
        match outcome {
            Ok(resp) => {
                assert(self.function().requires((resp,)));
                Ok((self.f)(resp))
            },
            Err(e) => Err(e),
        }
    }
}

/// Applies a function to every outcome of the inner unit, success or
/// failure.
#[derive(Clone, Debug)]
pub struct MapResult<S, F> {
    inner: S,
    f: F,
}

impl<S, F: Fn(Result<Response, BoxError>) -> Result<Response, BoxError>> MapResult<S, F> {
    pub closed spec fn inner(&self) -> S {
        self.inner
    }

    pub closed spec fn function(&self) -> F {
        self.f
    }

    pub fn new(inner: S, f: F) -> (r: MapResult<S, F>)
        ensures
            r.inner() == inner,
            r.function() == f,
    {
        MapResult { inner, f }
    }

    /// The outcome after the function.
    pub fn map(&self, outcome: Result<Response, BoxError>) -> (r: Result<Response, BoxError>)
        requires
            forall|o: Result<Response, BoxError>| self.function().requires((o,)),
        ensures
            self.function().ensures((outcome,), r),
    {
        assert(self.function().requires((outcome,)));
        (self.f)(outcome)
    }
}

} // verus!
