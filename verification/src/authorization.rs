//! The role-required pipeline stage.
//!
//! Its blueprint wraps the inner processor twice: the login-required guard
//! runs first, then the role check, so an anonymous request is redirected to
//! the login page rather than flatly denied.

use vstd::prelude::*;
use crate::auth::Role;
use crate::guards::{auth_role, auth_role_spec, Guard};
use crate::middleware::State;
use crate::request::{Request, Response};
use crate::require_login::RequireLoginService;

verus! {

/// Blueprint for a stage that requires an authenticated principal authorized
/// for a given role.
#[derive(Debug)]
pub struct AuthorizationLayer {
    pub permission_required: Role,
    pub login_uri: String,
}

impl AuthorizationLayer {
    /// A role-required stage for `permission_required`, sending anonymous
    /// requests to `login_uri`.
    pub fn new(permission_required: Role, login_uri: &str) -> (r: Self)
        ensures
            r.permission_required == permission_required,
            r.login_uri@ == login_uri@,
    {
        AuthorizationLayer { permission_required, login_uri: login_uri.to_owned() }
    }

    /// Wraps an inner processor with the role check, itself wrapped with the
    /// login-required guard: login-required is evaluated first.
    pub fn layer<S>(&self, inner: S) -> (svc: RequireLoginService<AuthorizationService<S>>)
        ensures
            svc.login_uri == self.login_uri,
            svc.inner.permission_required == self.permission_required,
            svc.inner.inner == inner,
    {
        RequireLoginService {
            login_uri: self.login_uri.clone(),
            inner: AuthorizationService { inner, permission_required: self.permission_required },
        }
    }
}

/// The role-required stage, bound to its inner processor.
pub struct AuthorizationService<S> {
    pub inner: S,
    pub permission_required: Role,
}

impl<S> AuthorizationService<S> {
    /// This stage's guard decision for one request.
    pub fn check(&self, req: Request) -> (r: Result<Request, Response>)
        ensures
            r == auth_role_spec(req, self.permission_required),
    {
        auth_role(req, self.permission_required)
    }

    /// Starts one guarded request: a continuation `Pending` on the
    /// role-required guard.
    pub fn call<NxtFut>(&self, req: Request) -> (s: State<NxtFut>)
        ensures
            s is Pending,
            s->chain.guards@ == seq![(Guard::RequireRole { role: self.permission_required })],
            s->req == req,
    {
        let mut guards: Vec<Guard> = Vec::new();
        guards.push(Guard::RequireRole { role: self.permission_required });
        proof {
            assert(guards@ =~= seq![(Guard::RequireRole { role: self.permission_required })]);
        }
        State::Pending { chain: crate::composer::GuardChain { guards }, req }
    }
}

} // verus!
