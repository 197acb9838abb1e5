//! The timeout layer: the inner call races a timer, and whichever finishes
//! first decides the outcome.
use crate::error::{BoxError, TimeoutError};
use crate::poll::Poll;
use vstd::prelude::*;

verus! {

/// Wraps an inner unit with a fixed time limit, in milliseconds.
#[derive(Clone, Debug)]
pub struct Timeout<S> {
    inner: S,
    timeout_ms: u64,
}

impl<S> Timeout<S> {
    pub closed spec fn inner(&self) -> S {
        self.inner
    }

    pub closed spec fn limit(&self) -> u64 {
        self.timeout_ms
    }

    pub fn new(inner: S, timeout_ms: u64) -> (r: Timeout<S>)
        ensures
            r.inner() == inner,
            r.limit() == timeout_ms,
    {
        Timeout { inner, timeout_ms }
    }

    /// The wrapped unit.
    pub fn get_ref(&self) -> (r: &S)
        ensures
            *r == self.inner(),
    {
        &self.inner
    }

    /// The time limit, in milliseconds.
    pub fn timeout_ms(&self) -> (r: u64)
        ensures
            r == self.limit(),
    {
        self.timeout_ms
    }

    /// One poll of the race: the inner result, if it is there, goes through
    /// unchanged; else a fired timer gives the timeout error; else nothing
    /// is decided yet. The layer keeps no state of its own between calls.
    pub fn poll<R>(&self, inner: Poll<Result<R, BoxError>>, timer: Poll<()>) -> (r: Poll<
        Result<R, BoxError>,
    >)
        ensures
            r == race_outcome(inner, timer),
    {
        match inner {
            Poll::Ready(result) => Poll::Ready(result),
            Poll::Pending => match timer {
                Poll::Ready(()) => Poll::Ready(Err(BoxError::Timeout(TimeoutError))),
                Poll::Pending => Poll::Pending,
            },
        }
    }
}

/// What one poll of the race yields.
pub open spec fn race_outcome<R>(inner: Poll<Result<R, BoxError>>, timer: Poll<()>) -> Poll<
    Result<R, BoxError>,
> {
    match inner {
        Poll::Ready(result) => Poll::Ready(result),
        Poll::Pending => match timer {
            Poll::Ready(_) => Poll::Ready(Err(BoxError::Timeout(TimeoutError))),
            Poll::Pending => Poll::Pending,
        },
    }
}

/// An inner call that has not finished when the timer fires yields the
/// timeout error, whatever came before; one that has finished is never
/// replaced by it.
pub proof fn lemma_timeout_decides_once<R>(inner: Poll<Result<R, BoxError>>, timer: Poll<()>)
    ensures
        inner is Pending && timer is Ready ==> race_outcome(inner, timer) == Poll::<
            Result<R, BoxError>,
        >::Ready(Err(BoxError::Timeout(TimeoutError))),
        inner is Ready ==> race_outcome(inner, timer) == inner,
        race_outcome(inner, timer) is Pending <==> (inner is Pending && timer is Pending),
{
}

} // verus!
