[package]
name = "auth_middleware"
version = "0.1.0"
edition = "2021"
publish = false

[dependencies]
axum = "=0.8.9"
axum-login = "=0.18.0"
futures-util = "=0.3.34"
http = "=1.5.0"
tokio = { version = "=1.53.2", features = ["rt-multi-thread", "macros", "net"] }
tower = { version = "=0.5.3", features = ["util"] }
tower-sessions = { version = "=0.14.0", default-features = false, features = ["memory-store"] }
