//! The suspend/resume continuation driving one guarded request, and the
//! generic pipeline stage that pairs a composed guard with an inner
//! processor.
//!
//! A continuation starts `Pending` on its guard work.  When the guard work
//! resolves it either completes at once with the guard's rejection — the
//! inner processor is never invoked — or moves to `Done`, holding only the
//! inner processor's pending work; the guard work is not retained past that
//! transition.  The `Pending → Done` transition happens at most once, and a
//! continuation dropped before completion produces no response at all.
//!
//! The inner work is opaque here (`NxtFut`); the host that owns the inner
//! processor submits the forwarded request and later surfaces the resolved
//! response verbatim.

use vstd::prelude::*;
use crate::composer::{eval_chain_spec, GuardChain};
use crate::request::{Request, Response};

verus! {

/// The state of one in-flight guarded request.
pub enum State<NxtFut> {
    /// Waiting on the guard's decision over the held request.
    Pending { chain: GuardChain, req: Request },
    /// The guard accepted; waiting on the inner processor's work.
    Done { next: NxtFut },
}

/// What a resumed `Pending` continuation decided.
pub enum Resumed {
    /// Every guard accepted: submit this request to the inner processor and
    /// re-arm the continuation with `State::submitted`.
    Forward(Request),
    /// A guard rejected: the continuation completed with this response, and
    /// the inner processor is never invoked.
    Complete(Response),
}

impl<NxtFut> State<NxtFut> {
    /// A continuation always starts `Pending`, holding its guard work.
    pub fn new(chain: GuardChain, req: Request) -> (s: Self)
        ensures
            s == (State::<NxtFut>::Pending { chain, req }),
    {
        State::Pending { chain, req }
    }

    /// Resumes a `Pending` continuation by running its guard work.  The
    /// continuation is consumed: the guard work is released whichever way the
    /// decision goes, and on rejection no `Done` state ever exists.
    pub fn resume(self) -> (r: Resumed)
        requires
            self is Pending,
        ensures
            (match r {
                Resumed::Forward(forwarded) => eval_chain_spec(self->chain.guards@, self->req)
                    == Ok::<Request, Response>(forwarded),
                Resumed::Complete(response) => eval_chain_spec(self->chain.guards@, self->req)
                    == Err::<Request, Response>(response),
            }),
    {
        match self {
            State::Pending { chain, req } => match chain.eval(req) {
                Ok(forwarded) => Resumed::Forward(forwarded),
                Err(response) => Resumed::Complete(response),
            },
            State::Done { next: _ } => vstd::pervasive::unreached(),
        }
    }

    /// The single `Pending → Done` transition: the forwarded request was
    /// submitted to the inner processor, whose pending work the continuation
    /// now holds in place of the released guard work.
    pub fn submitted(next: NxtFut) -> (s: Self)
        ensures
            s == (State::<NxtFut>::Done { next }),
    {
        State::Done { next }
    }

    /// Completes a `Done` continuation with the response the inner processor
    /// resolved to; the response is surfaced verbatim.
    pub fn finish(self, response: Response) -> (r: Response)
        requires
            self is Done,
        ensures
            r == response,
    {
        response
    }

    /// Cancels an in-flight continuation: whatever work it still held — the
    /// guard work while `Pending`, the inner work while `Done` — is released,
    /// and no response is produced, as none exists after this call.
    pub fn cancel(self) {
    }
}

/// A pipeline stage carrying an arbitrary composed guard in front of an
/// inner processor.
pub struct MiddlewareLayer {
    pub chain: GuardChain,
}

impl MiddlewareLayer {
    /// A stage blueprint from a composed guard.
    pub fn new(chain: GuardChain) -> (r: Self)
        ensures
            r.chain == chain,
    {
        MiddlewareLayer { chain }
    }

    /// Wraps an inner processor with this stage's guard.
    pub fn layer<S>(&self, inner: S) -> (svc: MiddlewareService<S>)
        ensures
            svc.chain.guards@ == self.chain.guards@,
            svc.inner == inner,
    {
        MiddlewareService { inner, chain: self.chain.clone() }
    }
}

/// A pipeline stage bound to its inner processor.  The stage has the same
/// external contract as the processor it wraps; `call` opens the continuation
/// that decides whether the processor is reached.
pub struct MiddlewareService<S> {
    pub inner: S,
    pub chain: GuardChain,
}

impl<S> MiddlewareService<S> {
    /// The stage's guard decision for one request.
    pub fn check(&self, req: Request) -> (r: Result<Request, Response>)
        ensures
            r == eval_chain_spec(self.chain.guards@, req),
    {
        self.chain.eval(req)
    }

    /// Starts one guarded request: a continuation `Pending` on this stage's
    /// guard work.
    pub fn call<NxtFut>(&self, req: Request) -> (s: State<NxtFut>)
        ensures
            s is Pending,
            s->chain.guards@ == self.chain.guards@,
            s->req == req,
    {
        State::Pending { chain: self.chain.clone(), req }
    }
}

} // verus!
