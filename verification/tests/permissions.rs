//! The permission model: role levels and the seniority decision rule.

use auth_middleware::auth::{Backend, Role, User, UserId};

fn principal(roles: Vec<u8>) -> User {
    User { id: UserId(String::from("leptos_user")), pw_hash: vec![1, 2, 3], roles }
}

#[test]
fn role_levels_are_ordered() {
    assert_eq!(Role::User.level(), 100);
    assert_eq!(Role::Admin.level(), 255);
    assert!(Role::User.level() < Role::Admin.level());
}

#[test]
fn admin_level_covers_user_requirement() {
    let backend = Backend::default();
    let user = principal(vec![255]);
    assert!(backend.has_perm(&user, 100));
}

#[test]
fn user_level_does_not_cover_admin_requirement() {
    let backend = Backend::default();
    let user = principal(vec![100]);
    assert!(!backend.has_perm(&user, 255));
}

#[test]
fn exact_level_is_enough() {
    let backend = Backend::default();
    let user = principal(vec![100]);
    assert!(backend.has_perm(&user, 100));
}

#[test]
fn empty_permission_set_denies_everything() {
    let backend = Backend::default();
    let user = principal(vec![]);
    assert!(!backend.has_perm(&user, 100));
    assert!(!backend.has_perm(&user, 0));
    assert!(!backend.has_perm(&user, 255));
}

#[test]
fn any_higher_level_suffices_without_membership() {
    let backend = Backend::default();
    let user = principal(vec![101]);
    assert!(backend.has_perm(&user, 100));
    assert!(!backend.has_perm(&user, 102));
}

#[test]
fn permission_queries_reflect_granted_levels() {
    let backend = Backend::default();
    let user = principal(vec![7, 100]);
    assert_eq!(backend.get_user_permissions(&user), vec![7, 100]);
    assert_eq!(backend.get_group_permissions(&user), Vec::<u8>::new());
    let mut all = backend.get_all_permissions(&user);
    all.sort();
    assert_eq!(all, vec![7, 100]);
}

#[test]
fn accessors_expose_identity() {
    let user = principal(vec![100]);
    assert_eq!(user.id(), "leptos_user");
    assert_eq!(user.session_auth_hash(), &vec![1, 2, 3]);
}
