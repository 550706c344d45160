//! The two guards: wiring faults, redirects, denials, and acceptance.

use auth_middleware::auth::{Backend, Role, User, UserId};
use auth_middleware::guards::{auth_role, require_login};
use auth_middleware::request::{AuthSession, Request};

fn store_with(id: &str, roles: &[u8]) -> Backend {
    let mut backend = Backend::default();
    backend.register_user(id, roles).unwrap();
    backend
}

fn logged_in(roles: &[u8]) -> AuthSession {
    let backend = store_with("leptos_user", roles);
    let user = backend.get_user(&String::from("leptos_user"));
    AuthSession { user, backend }
}

fn anonymous() -> AuthSession {
    AuthSession { user: None, backend: Backend::default() }
}

fn request(session: Option<AuthSession>) -> Request {
    Request { session, user_id: None, referer: None, origin: None }
}

#[test]
fn login_guard_without_session_is_a_wiring_fault() {
    let rejection = require_login(request(None), &String::from("/")).unwrap_err();
    assert_eq!(rejection.status, Some(500));
    assert_eq!(rejection.location, None);
}

#[test]
fn login_guard_redirects_anonymous_requests() {
    let rejection = require_login(request(Some(anonymous())), &String::from("/login")).unwrap_err();
    assert_eq!(rejection.status, Some(302));
    assert_eq!(rejection.location.as_deref(), Some("/login"));
}

#[test]
fn login_guard_suppresses_the_redirect_from_the_login_page() {
    let mut req = request(Some(anonymous()));
    req.referer = Some(b"http://localhost:3000/".to_vec());
    req.origin = Some(b"http://localhost:3000".to_vec());
    let rejection = require_login(req, &String::from("/")).unwrap_err();
    assert_eq!(rejection.status, None);
    assert_eq!(rejection.location, None);
}

#[test]
fn login_guard_redirects_when_the_referrer_path_is_not_the_root() {
    let mut req = request(Some(anonymous()));
    req.referer = Some(b"http://localhost:3000/protected".to_vec());
    req.origin = Some(b"http://localhost:3000".to_vec());
    let rejection = require_login(req, &String::from("/")).unwrap_err();
    assert_eq!(rejection.status, Some(302));
    assert_eq!(rejection.location.as_deref(), Some("/"));
}

#[test]
fn login_guard_redirects_when_the_origin_is_no_prefix_of_the_referrer() {
    let mut req = request(Some(anonymous()));
    req.referer = Some(b"http://elsewhere/".to_vec());
    req.origin = Some(b"http://localhost:3000".to_vec());
    let rejection = require_login(req, &String::from("/")).unwrap_err();
    assert_eq!(rejection.status, Some(302));
}

#[test]
fn login_guard_forwards_authenticated_requests_unchanged() {
    let req = request(Some(logged_in(&[100])));
    let forwarded = require_login(req, &String::from("/")).unwrap();
    assert!(forwarded.user_id.is_none());
    assert!(forwarded.session.unwrap().user.is_some());
}

#[test]
fn role_guard_without_session_is_a_wiring_fault() {
    let rejection = auth_role(request(None), Role::User).unwrap_err();
    assert_eq!(rejection.status, Some(500));
}

#[test]
fn role_guard_denies_anonymous_requests() {
    let rejection = auth_role(request(Some(anonymous())), Role::User).unwrap_err();
    assert_eq!(rejection.status, Some(401));
    assert_eq!(rejection.location, None);
}

#[test]
fn admin_principal_passes_a_user_gate() {
    let req = request(Some(logged_in(&[255])));
    let forwarded = auth_role(req, Role::User).unwrap();
    assert_eq!(forwarded.user_id.map(|UserId(id)| id).as_deref(), Some("leptos_user"));
}

#[test]
fn user_principal_is_denied_an_admin_gate() {
    let req = request(Some(logged_in(&[100])));
    let rejection = auth_role(req, Role::Admin).unwrap_err();
    assert_eq!(rejection.status, Some(401));
}

#[test]
fn principal_without_grants_is_denied_a_user_gate() {
    let req = request(Some(logged_in(&[])));
    let rejection = auth_role(req, Role::User).unwrap_err();
    assert_eq!(rejection.status, Some(401));
}

#[test]
fn role_guard_leaves_the_request_alone_on_rejection() {
    let mut req = request(Some(logged_in(&[100])));
    req.referer = Some(b"http://localhost:3000/a".to_vec());
    let rejection = auth_role(req, Role::Admin).unwrap_err();
    assert_eq!(rejection.status, Some(401));
    let user = User {
        id: UserId(String::from("direct")),
        pw_hash: Vec::new(),
        roles: vec![200],
    };
    let backend = Backend::default();
    let session = AuthSession { user: Some(user), backend };
    let forwarded = auth_role(request(Some(session)), Role::User).unwrap();
    assert_eq!(forwarded.user_id.map(|UserId(id)| id).as_deref(), Some("direct"));
}
