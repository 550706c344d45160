//! The guard functions: login-required and role-required.
//!
//! A guard inspects a request and either forwards it (possibly with an
//! attached authenticated identifier) or produces a terminal rejection
//! response.  A guard mutates nothing on rejection.

use vstd::prelude::*;
use crate::auth::{all_permissions, has_permission, spec_level, Role, UserId};
use crate::request::{Request, Response};

verus! {

/// One unit of guard logic, ready for composition.
#[derive(Debug)]
pub enum Guard {
    /// Requires an authenticated principal; redirects to `login_uri` otherwise.
    RequireLogin { login_uri: String },
    /// Requires the principal to be authorized for `role`'s level.
    RequireRole { role: Role },
}

impl Clone for Guard {
    fn clone(&self) -> (r: Self)
        ensures
            r == *self,
    {
        match self {
            Guard::RequireLogin { login_uri } => (Guard::RequireLogin {
                login_uri: login_uri.clone(),
            }),
            Guard::RequireRole { role } => (Guard::RequireRole { role: *role }),
        }
    }
}

/// `p` stripped from the front of `s`, when `p` is a prefix of `s`.
pub open spec fn strip_prefix_spec(s: Seq<u8>, p: Seq<u8>) -> Option<Seq<u8>> {
    if p.is_prefix_of(s) {
        Some(s.skip(p.len() as int))
    } else {
        None
    }
}

/// The site root — the one-byte path of a slash — as the relative path of a
/// request that came from the login page itself.
pub open spec fn site_root() -> Seq<u8> {
    seq![47u8]
}

/// The redirect is suppressed when the referrer and origin headers are both
/// present and the referrer's path relative to the origin is the site root:
/// the request already came from the login page, and redirecting it back
/// would loop.
pub open spec fn redirect_suppressed(req: Request) -> bool {
    match (req.referer, req.origin) {
        (Some(r), Some(o)) => strip_prefix_spec(r@, o@) == Some(site_root()),
        _ => false,
    }
}

/// What the login-required guard decides: a wiring fault without a session, a
/// redirect (or its suppressed form) without a principal, and otherwise the
/// request unchanged.
pub open spec fn require_login_spec(req: Request, login_uri: String) -> Result<Request, Response> {
    if req.session is None {
        Err(Response::server_error())
    } else if req.session->0.user is None {
        if redirect_suppressed(req) {
            Err(Response::suppressed())
        } else {
            Err(Response::redirect(login_uri))
        }
    } else {
        Ok(req)
    }
}

/// What the role-required guard decides: a wiring fault without a session, a
/// denial without a principal or without sufficient permission, and otherwise
/// the request with the authenticated identifier attached.
pub open spec fn auth_role_spec(req: Request, role: Role) -> Result<Request, Response> {
    if req.session is None {
        Err(Response::server_error())
    } else {
        match req.session->0.user {
            None => Err(Response::unauthorized()),
            Some(u) => if has_permission(all_permissions(u@), spec_level(role)) {
                Ok(
                    (Request {
                        session: req.session,
                        user_id: Some(UserId(u.id.0)),
                        referer: req.referer,
                        origin: req.origin,
                    }),
                )
            } else {
                Err(Response::unauthorized())
            },
        }
    }
}

/// `p` stripped from the front of `s`, when it is a prefix.
fn strip_prefix(s: &Vec<u8>, p: &Vec<u8>) -> (r: Option<Vec<u8>>)
    ensures
        match r {
            Some(rest) => strip_prefix_spec(s@, p@) == Some(rest@),
            None => strip_prefix_spec(s@, p@) is None,
        },
{
    if p.len() > s.len() {
        assert(!p@.is_prefix_of(s@));
        return None;
    }
    let n = p.len();
    let mut i: usize = 0;
    while i < n
        invariant
            i <= n,
            n == p@.len(),
            n <= s@.len(),
            forall|j: int| 0 <= j < i ==> s@[j] == p@[j],
        decreases n - i,
    {
        if s[i] != p[i] {
            assert(!p@.is_prefix_of(s@));
            return None;
        }
        i += 1;
    }
    assert(p@.is_prefix_of(s@)) by {
        assert(p@ =~= s@.subrange(0, p@.len() as int));
    }
    let mut rest: Vec<u8> = Vec::new();
    let m = s.len();
    let mut k: usize = n;
    while k < m
        invariant
            n <= k <= m,
            m == s@.len(),
            rest@ =~= s@.subrange(n as int, k as int),
        decreases m - k,
    {
        rest.push(s[k]);
        proof {
            assert(rest@ =~= s@.subrange(n as int, k + 1 as int));
        }
        k += 1;
    }
    proof {
        assert(rest@ =~= s@.skip(n as int));
    }
    Some(rest)
}

/// Whether the login guard's redirect is suppressed for this request.
fn is_redirect_suppressed(req: &Request) -> (b: bool)
    ensures
        b == redirect_suppressed(*req),
{
    match (&req.referer, &req.origin) {
        (Some(r), Some(o)) => {
            match strip_prefix(r, o) {
                Some(rest) => {
                    let suppressed = rest.len() == 1 && rest[0] == 47u8;
                    proof {
                        if suppressed {
                            assert(rest@ =~= site_root());
                        } else {
                            assert(rest@ != site_root());
                        }
                    }
                    suppressed
                },
                None => false,
            }
        },
        _ => false,
    }
}

/// The login-required guard.  Without a session it signals the wiring fault;
/// without a principal it rejects with a redirect to `login_uri`, suppressed
/// when the request already came from the login page; otherwise it forwards
/// the request unchanged.
pub fn require_login(req: Request, login_uri: &String) -> (r: Result<Request, Response>)
    ensures
        r == require_login_spec(req, *login_uri),
{
    let suppressed = is_redirect_suppressed(&req);
    match &req.session {
        None => Err(
            (Response { status: Some(crate::request::STATUS_INTERNAL_SERVER_ERROR), location: None }),
        ),
        Some(session) => {
            if session.user.is_none() {
                if suppressed {
                    Err(Response { status: None, location: None })
                } else {
                    Err(
                        (Response {
                            status: Some(crate::request::STATUS_FOUND),
                            location: Some(login_uri.clone()),
                        }),
                    )
                }
            } else {
                Ok(req)
            }
        },
    }
}

/// The role-required guard.  Without a session it signals the wiring fault;
/// without a principal, or when the principal's effective permissions do not
/// cover `role`'s level, it rejects with a denial; on acceptance it attaches
/// the authenticated identifier for downstream processors.
pub fn auth_role(mut req: Request, role: Role) -> (r: Result<Request, Response>)
    ensures
        r == auth_role_spec(req, role),
{
    let authorized: Option<UserId> = match &req.session {
        None => {
            return Err(
                (Response {
                    status: Some(crate::request::STATUS_INTERNAL_SERVER_ERROR),
                    location: None,
                }),
            );
        },
        Some(session) => {
            match &session.user {
                Some(user) => {
                    if session.backend.has_perm(user, role.level()) {
                        Some(UserId(user.id.0.clone()))
                    } else {
                        None
                    }
                },
                None => None,
            }
        },
    };
    match authorized {
        Some(user_id) => {
            req.user_id = Some(user_id);
            Ok(req)
        },
        None => Err(
            (Response { status: Some(crate::request::STATUS_UNAUTHORIZED), location: None }),
        ),
    }
}

/// Evaluates one guard against a request.
pub fn eval_guard(g: &Guard, req: Request) -> (r: Result<Request, Response>)
    ensures
        r == eval_guard_spec(*g, req),
{
    match g {
        Guard::RequireLogin { login_uri } => require_login(req, login_uri),
        Guard::RequireRole { role } => auth_role(req, *role),
    }
}

/// What a guard decides, by its kind.
pub open spec fn eval_guard_spec(g: Guard, req: Request) -> Result<Request, Response> {
    match g {
        Guard::RequireLogin { login_uri } => require_login_spec(req, login_uri),
        Guard::RequireRole { role } => auth_role_spec(req, role),
    }
}

/// An accepting guard forwards the request unchanged, except that the
/// role-required guard attaches the authenticated identifier: the session and
/// the headers always pass through intact, the login-required guard changes
/// nothing at all, and a role-required acceptance always carries an attached
/// identifier.
pub proof fn lemma_guard_forwards_request_intact(g: Guard, req: Request)
    requires
        eval_guard_spec(g, req) is Ok,
    ensures
        eval_guard_spec(g, req)->Ok_0.session == req.session,
        eval_guard_spec(g, req)->Ok_0.referer == req.referer,
        eval_guard_spec(g, req)->Ok_0.origin == req.origin,
        g is RequireLogin ==> eval_guard_spec(g, req)->Ok_0 == req,
        g is RequireRole ==> eval_guard_spec(g, req)->Ok_0.user_id is Some,
{
}

/// A request with no session attached is rejected with the wiring-fault
/// response by every guard, whatever the guard's parameters.
pub proof fn lemma_missing_session_is_server_error(g: Guard, req: Request)
    requires
        req.session is None,
    ensures
        eval_guard_spec(g, req) == Err::<Request, Response>(Response::server_error()),
{
}

/// A request with a session but no principal is rejected by the login guard
/// with the redirect to the login target, or with the suppressed form when
/// the request already came from the login page.
pub proof fn lemma_unauthenticated_login_redirects(req: Request, login_uri: String)
    requires
        req.session is Some,
        req.session->0.user is None,
    ensures
        redirect_suppressed(req) ==> require_login_spec(req, login_uri) == Err::<
            Request,
            Response,
        >(Response::suppressed()),
        !redirect_suppressed(req) ==> require_login_spec(req, login_uri) == Err::<
            Request,
            Response,
        >(Response::redirect(login_uri)),
{
}

/// A request with a session but no principal is rejected with the denial
/// response by a role guard of any role.
pub proof fn lemma_unauthenticated_role_denies(req: Request, role: Role)
    requires
        req.session is Some,
        req.session->0.user is None,
    ensures
        auth_role_spec(req, role) == Err::<Request, Response>(Response::unauthorized()),
{
}

} // verus!
