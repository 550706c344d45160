//! The login-required pipeline stage.

use vstd::prelude::*;
use crate::guards::{require_login, require_login_spec, Guard};
use crate::middleware::State;
use crate::request::{Request, Response};

verus! {

/// Blueprint for a stage that requires an authenticated principal, sending
/// anonymous requests to `login_uri`.
#[derive(Debug, Default)]
pub struct RequireLoginLayer {
    pub login_uri: String,
}

impl RequireLoginLayer {
    /// A login-required stage redirecting to the given login target.
    pub fn new(login_uri: &str) -> (r: Self)
        ensures
            r.login_uri@ == login_uri@,
    {
        RequireLoginLayer { login_uri: login_uri.to_owned() }
    }

    /// Wraps an inner processor with the login-required guard.
    pub fn layer<S>(&self, inner: S) -> (svc: RequireLoginService<S>)
        ensures
            svc.login_uri == self.login_uri,
            svc.inner == inner,
    {
        RequireLoginService { inner, login_uri: self.login_uri.clone() }
    }
}

/// The login-required stage, bound to its inner processor.
pub struct RequireLoginService<S> {
    pub inner: S,
    pub login_uri: String,
}

impl<S> RequireLoginService<S> {
    /// This stage's guard decision for one request.
    pub fn check(&self, req: Request) -> (r: Result<Request, Response>)
        ensures
            r == require_login_spec(req, self.login_uri),
    {
        require_login(req, &self.login_uri)
    }

    /// Starts one guarded request: a continuation `Pending` on the
    /// login-required guard.
    pub fn call<NxtFut>(&self, req: Request) -> (s: State<NxtFut>)
        ensures
            s is Pending,
            s->chain.guards@ == seq![(Guard::RequireLogin { login_uri: self.login_uri })],
            s->req == req,
    {
        let mut guards: Vec<Guard> = Vec::new();
        guards.push(Guard::RequireLogin { login_uri: self.login_uri.clone() });
        proof {
            assert(guards@ =~= seq![(Guard::RequireLogin { login_uri: self.login_uri })]);
        }
        State::Pending { chain: crate::composer::GuardChain { guards }, req }
    }
}

} // verus!
