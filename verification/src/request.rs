//! The values the pipeline works on: the guarded request context, the
//! session attached to it, and the terminal responses a guard can produce.
//!
//! A request either carries no session at all (a wiring fault upstream of the
//! pipeline), or exactly one session binding it to the principal store and to
//! the current principal, if any.

use vstd::prelude::*;
use crate::auth::{Backend, User, UserId};

verus! {

/// The per-request session: the principal store and the current principal,
/// absent when the request is unauthenticated.
#[derive(Debug)]
pub struct AuthSession {
    pub user: Option<User>,
    pub backend: Backend,
}

/// The request context threaded through the pipeline: the attached session
/// (if the session layer ran), the authenticated-identifier extension that a
/// role guard attaches on acceptance, and the two headers the login guard
/// reads to avoid redirect loops.
#[derive(Debug)]
pub struct Request {
    pub session: Option<AuthSession>,
    pub user_id: Option<UserId>,
    pub referer: Option<Vec<u8>>,
    pub origin: Option<Vec<u8>>,
}

/// Status of a response that redirects to the login page.
pub const STATUS_FOUND: u16 = 302;

/// Status of a response denying insufficient permission.
pub const STATUS_UNAUTHORIZED: u16 = 401;

/// Status of a response to a request the session layer never reached.
pub const STATUS_INTERNAL_SERVER_ERROR: u16 = 500;

/// A terminal rejection response.  The body is always empty; a rejection is a
/// fully-formed response, never an application-level error.  `status` is
/// absent on the redirect-suppressed form, which a client sees as a plain
/// empty page.
#[derive(Debug, PartialEq, Eq)]
pub struct Response {
    pub status: Option<u16>,
    pub location: Option<String>,
}

impl Response {
    /// The wiring-fault response: the session object is missing.
    pub open spec fn server_error() -> Response {
        Response { status: Some(STATUS_INTERNAL_SERVER_ERROR), location: None }
    }

    /// The denial response: a principal is present but unauthorized, or a
    /// role guard ran without a preceding login.
    pub open spec fn unauthorized() -> Response {
        Response { status: Some(STATUS_UNAUTHORIZED), location: None }
    }

    /// The unauthenticated redirect, carrying the configured login target.
    pub open spec fn redirect(login_uri: String) -> Response {
        Response { status: Some(STATUS_FOUND), location: Some(login_uri) }
    }

    /// The redirect-suppressed response: no status, no target, empty body.
    pub open spec fn suppressed() -> Response {
        Response { status: None, location: None }
    }
}

impl Clone for Response {
    fn clone(&self) -> (r: Self)
        ensures
            r == *self,
    {
        let location = match &self.location {
            Some(l) => Some(l.clone()),
            None => None,
        };
        Response { status: self.status, location }
    }
}

} // verus!
