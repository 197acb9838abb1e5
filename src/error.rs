//! The errors that travel up the middleware stack.
use vstd::prelude::*;

verus! {

/// What the timeout layer yields when the timer fires first.
#[derive(Clone, Copy, PartialEq, Eq, Debug, Structural)]
pub struct TimeoutError;

impl TimeoutError {
    /// The message shown for it.
    pub fn message(&self) -> (r: &'static str)
        ensures
            r@ == timeout_message(),
    {
        proof {
            reveal_strlit("request timed out");
        }
        "request timed out"
    }
}

pub open spec fn timeout_message() -> Seq<char> {
    seq!['r', 'e', 'q', 'u', 'e', 's', 't', ' ', 't', 'i', 'm', 'e', 'd', ' ', 'o', 'u', 't']
}

/// A failure of an inner layer: a timeout, recognised by kind, or any
/// other fault with its message.
pub enum BoxError {
    Timeout(TimeoutError),
    Other(String),
}

pub enum BoxErrorView {
    Timeout,
    Other(Seq<char>),
}

impl View for BoxError {
    type V = BoxErrorView;

    open spec fn view(&self) -> BoxErrorView {
        match self {
            BoxError::Timeout(_) => BoxErrorView::Timeout,
            BoxError::Other(m) => BoxErrorView::Other(m@),
        }
    }
}

impl BoxError {
    /// Whether this is the timeout layer's error.
    pub fn is_timeout(&self) -> (r: bool)
        ensures
            r == (self@ is Timeout),
    {
        match self {
            BoxError::Timeout(_) => true,
            BoxError::Other(_) => false,
        }
    }
}

/// An error of the response-body layer, wrapping any boxed error.
pub struct Error {
    inner: BoxError,
}

impl View for Error {
    type V = BoxErrorView;

    closed spec fn view(&self) -> BoxErrorView {
        self.inner@
    }
}

impl Error {
    /// Wraps `error`.
    pub fn new(error: BoxError) -> (r: Error)
        ensures
            r@ == error@,
    {
        Error { inner: error }
    }

    /// The wrapped error.
    pub fn into_inner(self) -> (r: BoxError)
        ensures
            r@ == self@,
    {
        self.inner
    }
}

} // verus!
