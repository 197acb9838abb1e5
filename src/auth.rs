//! The authorization layer: an authorization decision comes first; an
//! approved request goes on to the inner unit, a rejection is the answer
//! and the inner unit is never called.
use crate::context::str_eq;
use crate::error::BoxError;
use crate::response::{err_response, mk_empty_response, Response, UNAUTHORIZED};
use vstd::prelude::*;

verus! {

/// Wraps an inner unit with an authorization function.
#[derive(Clone, Debug)]
pub struct AsyncRequireAuthorization<S, T> {
    inner: S,
    auth: T,
}

impl<S, T> AsyncRequireAuthorization<S, T> {
    pub closed spec fn inner(&self) -> S {
        self.inner
    }

    pub closed spec fn authorizer(&self) -> T {
        self.auth
    }

    pub fn new(inner: S, auth: T) -> (r: AsyncRequireAuthorization<S, T>)
        ensures
            r.inner() == inner,
            r.authorizer() == auth,
    {
        AsyncRequireAuthorization { inner, auth }
    }

    /// The wrapped unit.
    pub fn get_ref(&self) -> (r: &S)
        ensures
            *r == self.inner(),
    {
        &self.inner
    }

    /// The authorization function.
    pub fn auth(&self) -> (r: &T)
        ensures
            *r == self.authorizer(),
    {
        &self.auth
    }

    /// Gives the wrapped unit back.
    pub fn into_inner(self) -> (r: S)
        ensures
            r == self.inner(),
    {
        self.inner
    }
}

/// Where one request stands in the layer.
#[derive(Clone, Copy, PartialEq, Eq, Debug, Structural)]
pub enum AuthPhase {
    /// Waiting for the authorization decision.
    Authorizing,
    /// Approved; waiting for the inner unit.
    Authorized,
    /// The answer has been given.
    Finished,
}

/// What the server reports back to the layer.
pub enum AuthEvent<Req> {
    /// The authorization function finished: the request to pass on, or the
    /// rejection to send.
    Decided(Result<Req, Response>),
    /// The inner unit finished.
    InnerDone(Result<Response, BoxError>),
}

/// What the layer asks the server to do next.
pub enum AuthAction<Req> {
    /// Call the inner unit with this request.
    CallInner(Req),
    /// Answer the request with this outcome.
    Finish(Result<Response, BoxError>),
    /// Nothing: the event does not belong to this phase.
    Ignore,
}

/// The layer's transition on one event.
pub open spec fn auth_step<Req>(phase: AuthPhase, event: AuthEvent<Req>) -> (AuthPhase, AuthAction<Req>) {
    match (phase, event) {
        (AuthPhase::Authorizing, AuthEvent::Decided(Ok(req))) => (AuthPhase::Authorized, AuthAction::CallInner(req)),
        (AuthPhase::Authorizing, AuthEvent::Decided(Err(resp))) => (AuthPhase::Finished, AuthAction::Finish(Ok(resp))),
        (AuthPhase::Authorized, AuthEvent::InnerDone(res)) => (AuthPhase::Finished, AuthAction::Finish(res)),
        (p, _) => (p, AuthAction::Ignore),
    }
}

/// The actions the layer takes on a sequence of events, from `phase`.
pub open spec fn auth_run<Req>(phase: AuthPhase, events: Seq<AuthEvent<Req>>) -> Seq<AuthAction<Req>>
    decreases events.len(),
{
    if events.len() == 0 {
        Seq::empty()
    } else {
        let (next, action) = auth_step(phase, events[0]);
        seq![action] + auth_run(next, events.drop_first())
    }
}

impl AuthPhase {
    /// Takes one event: an approval calls the inner unit, a rejection is
    /// the answer, the inner unit's outcome is the answer.
    pub fn step<Req>(self, event: AuthEvent<Req>) -> (r: (AuthPhase, AuthAction<Req>))
        ensures
            r == auth_step(self, event),
    {
        match (self, event) {
            (AuthPhase::Authorizing, AuthEvent::Decided(Ok(req))) => (AuthPhase::Authorized, AuthAction::CallInner(req)),
            (AuthPhase::Authorizing, AuthEvent::Decided(Err(resp))) => (AuthPhase::Finished, AuthAction::Finish(Ok(resp))),
            (AuthPhase::Authorized, AuthEvent::InnerDone(res)) => (AuthPhase::Finished, AuthAction::Finish(res)),
            (p, _) => (p, AuthAction::Ignore),
        }
    }
}

/// Once answered, the layer does nothing more, whatever happens.
proof fn lemma_finished_is_inert<Req>(events: Seq<AuthEvent<Req>>)
    ensures
        forall|i: int| 0 <= i < events.len() ==> #[trigger] auth_run(AuthPhase::Finished, events)[i] is Ignore,
        auth_run(AuthPhase::Finished, events).len() == events.len(),
    decreases events.len(),
{
    if events.len() > 0 {
        lemma_finished_is_inert(events.drop_first());
        let rest = auth_run(AuthPhase::Finished, events.drop_first());
        assert forall|i: int| 0 <= i < events.len() implies #[trigger] auth_run(AuthPhase::Finished, events)[i] is Ignore by {
            if i > 0 {
                assert(auth_run(AuthPhase::Finished, events)[i] == rest[i - 1]);
            }
        }
    }
}

/// A rejection is sent exactly as the authorization function built it,
/// and the inner unit is never called for that request, whatever events
/// follow.
pub proof fn lemma_rejection_skips_inner<Req>(rejection: Response, later: Seq<AuthEvent<Req>>)
    ensures
        ({
            let run = auth_run(AuthPhase::Authorizing, seq![AuthEvent::Decided(Err(rejection))] + later);
            &&& run[0] == AuthAction::<Req>::Finish(Ok(rejection))
            &&& forall|i: int| 0 <= i < run.len() ==> !(#[trigger] run[i] is CallInner)
        }),
{
    let events = seq![AuthEvent::Decided(Err(rejection))] + later;
    assert(events.drop_first() =~= later);
    lemma_finished_is_inert(later);
    let run = auth_run(AuthPhase::Authorizing, events);
    assert forall|i: int| 0 <= i < run.len() implies !(#[trigger] run[i] is CallInner) by {
        if i > 0 {
            assert(run[i] == auth_run(AuthPhase::Finished, later)[i - 1]);
        }
    }
}

/// Checks the `Bearer` header against a configured token. A request
/// without the header passes; one whose header differs gets a 401 with an
/// empty body.
pub struct BearerAuth {
    token: String,
}

impl BearerAuth {
    pub closed spec fn token(&self) -> Seq<char> {
        self.token@
    }

    pub fn new(token: String) -> (r: BearerAuth)
        ensures
            r.token() == token@,
    {
        BearerAuth { token }
    }

    /// The decision for a request carrying `bearer` (the header's value, if
    /// present).
    pub fn authorize(&self, bearer: Option<&str>) -> (r: Result<(), Response>)
        ensures
            r is Err <==> (bearer is Some && bearer->Some_0@ != self.token()),
            r is Err ==> r->Err_0@ == err_response(UNAUTHORIZED, Seq::empty()),
    {
        match bearer {
            Some(b) => {
                if str_eq(b, self.token.as_str()) {
                    Ok(())
                } else {
                    Err(mk_empty_response(UNAUTHORIZED))
                }
            },
            None => Ok(()),
        }
    }
}

} // verus!
