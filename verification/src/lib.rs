//! Request authorization middleware: a numeric role/permission model, an
//! in-memory principal store, composable request guards (login-required and
//! role-required), and the suspend/resume continuation that drives one
//! guarded request.

pub mod auth;
pub mod authorization;
pub mod composer;
pub mod guards;
pub mod middleware;
pub mod request;
pub mod require_login;
