//! Handlers as values: any function of (shared state, path parameters,
//! request) lifted into a handler, and a combinator that maps what a
//! handler produces.
use crate::context::Context;
use vstd::prelude::*;

verus! {

/// A function used as a handler.
#[derive(Clone, Copy, Debug)]
pub struct HandlerFn<F> {
    f: F,
}

impl<F> HandlerFn<F> {
    pub closed spec fn function(&self) -> F {
        self.f
    }

    /// Runs the handler: the function on the state, the parameters and the
    /// request.
    pub fn call<S, Req, R>(&self, state: S, ctx: Context, req: Req) -> (r: R)
        where
            F: Fn(S, Context, Req) -> R,
        requires
            self.function().requires((state, ctx, req)),
        ensures
            self.function().ensures((state, ctx, req), r),
    {
        (self.f)(state, ctx, req)
    }

    /// This handler with `g` applied to everything it produces.
    pub fn map_future<G>(self, g: G) -> (r: MapFuture<F, G>)
        ensures
            r.inner() == self,
            r.mapper() == g,
    {
        MapFuture::new(self, g)
    }
}

/// Lifts `f` into a handler.
pub fn handler_fn<F>(f: F) -> (r: HandlerFn<F>)
    ensures
        r.function() == f,
{
    HandlerFn { f }
}

/// A handler whose result goes through a mapping function.
#[derive(Clone, Copy, Debug)]
pub struct MapFuture<F, G> {
    inner: HandlerFn<F>,
    f: G,
}

impl<F, G> MapFuture<F, G> {
    pub closed spec fn inner(&self) -> HandlerFn<F> {
        self.inner
    }

    pub closed spec fn mapper(&self) -> G {
        self.f
    }

    pub fn new(inner: HandlerFn<F>, f: G) -> (r: MapFuture<F, G>)
        ensures
            r.inner() == inner,
            r.mapper() == f,
    {
        MapFuture { inner, f }
    }

    /// Runs the inner handler, then the mapping function on its result.
    pub fn call<S, Req, R, T>(&self, state: S, ctx: Context, req: Req) -> (r: T)
        where
            F: Fn(S, Context, Req) -> R,
            G: Fn(R) -> T,
        requires
            self.inner().function().requires((state, ctx, req)),
            forall|x: R| #[trigger] self.mapper().requires((x,)),
        ensures
            exists|x: R|
                self.inner().function().ensures((state, ctx, req), x) && #[trigger] self.mapper().ensures(
                    (x,),
                    r,
                ),
    {
        let x = self.inner.call(state, ctx, req);
        assert(self.mapper().requires((x,)));
        (self.f)(x)
    }
}

} // verus!
