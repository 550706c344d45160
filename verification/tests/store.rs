//! The principal store: registration, replacement, and lookup.

use auth_middleware::auth::{Backend, UserId};

#[test]
fn registered_principal_is_found() {
    let mut backend = Backend::default();
    assert!(backend.register_user("leptos_user", &[255]).is_ok());
    let user = backend.get_user(&String::from("leptos_user")).expect("registered");
    assert_eq!(user.id(), "leptos_user");
    assert_eq!(user.roles, vec![255]);
    assert_eq!(user.pw_hash, b"leptos_user".to_vec());
}

#[test]
fn absent_identifier_is_not_an_error() {
    let backend = Backend::default();
    assert!(backend.get_user(&String::from("nobody")).is_none());
}

#[test]
fn reregistration_replaces_the_permission_set() {
    let mut backend = Backend::default();
    backend.register_user("leptos_user", &[100]).unwrap();
    backend.register_user("leptos_user", &[255]).unwrap();
    let user = backend.get_user(&String::from("leptos_user")).expect("registered");
    assert_eq!(user.roles, vec![255], "no union with the prior set");
}

#[test]
fn reregistration_with_empty_set_clears_permissions() {
    let mut backend = Backend::default();
    backend.register_user("leptos_user", &[100, 255]).unwrap();
    backend.register_user("leptos_user", &[]).unwrap();
    let user = backend.get_user(&String::from("leptos_user")).expect("registered");
    assert_eq!(user.roles, Vec::<u8>::new());
}

#[test]
fn registrations_under_distinct_identifiers_coexist() {
    let mut backend = Backend::default();
    backend.register_user("alice", &[255]).unwrap();
    backend.register_user("bob", &[100]).unwrap();
    assert_eq!(backend.get_user(&String::from("alice")).unwrap().roles, vec![255]);
    assert_eq!(backend.get_user(&String::from("bob")).unwrap().roles, vec![100]);
}

#[test]
fn authenticate_accepts_by_identifier_alone() {
    let mut backend = Backend::default();
    backend.register_user("leptos_user", &[255]).unwrap();
    let user = backend.authenticate(UserId(String::from("leptos_user"))).expect("known id");
    assert_eq!(user.id(), "leptos_user");
    assert!(backend.authenticate(UserId(String::from("other"))).is_none());
}

#[test]
fn cloned_store_answers_like_its_source() {
    let mut backend = Backend::default();
    backend.register_user("leptos_user", &[255]).unwrap();
    let copy = backend.clone();
    assert_eq!(copy.get_user(&String::from("leptos_user")).unwrap().roles, vec![255]);
    assert!(copy.get_user(&String::from("other")).is_none());
}
