//! The logging layer: observes each request and how long it took, and
//! changes nothing.
use crate::text::{decimal, decimal_text};
use vstd::prelude::*;
use vstd::string::StringExecFns;

verus! {

/// Wraps an inner unit; it only describes what passed through it.
#[derive(Clone, Debug)]
pub struct LogRequest<S> {
    inner: S,
}

/// "request method=<method>, uri=<uri>, version=<version>"
pub open spec fn request_text(method: Seq<char>, uri: Seq<char>, version: Seq<char>) -> Seq<char> {
    "request method="@ + method + ", uri="@ + uri + ", version="@ + version
}

/// "<request>, elapsed: <ms> ms"
pub open spec fn elapsed_text(request: Seq<char>, ms: u64) -> Seq<char> {
    request + ", elapsed: "@ + decimal(ms as nat) + " ms"@
}

impl<S> LogRequest<S> {
    pub closed spec fn inner(&self) -> S {
        self.inner
    }

    pub fn new(inner: S) -> (r: LogRequest<S>)
        ensures
            r.inner() == inner,
    {
        LogRequest { inner }
    }

    /// The wrapped unit.
    pub fn get_ref(&self) -> (r: &S)
        ensures
            *r == self.inner(),
    {
        &self.inner
    }

    /// What is recorded of a request before it goes in.
    pub fn request_line(&self, method: &str, uri: &str, version: &str) -> (r: String)
        ensures
            r@ == request_text(method@, uri@, version@),
    {
        let mut s = String::from_str("request method=");
        s.append(method);
        s.append(", uri=");
        s.append(uri);
        s.append(", version=");
        s.append(version);
        s
    }

    /// The line written when the request's outcome comes back.
    pub fn completion_line(&self, request: &str, elapsed_ms: u64) -> (r: String)
        ensures
            r@ == elapsed_text(request@, elapsed_ms),
    {
        let mut s = String::from_str(request);
        s.append(", elapsed: ");
        let d = decimal_text(elapsed_ms);
        s.append(d.as_str());
        s.append(" ms");
        s
    }
}

} // verus!
