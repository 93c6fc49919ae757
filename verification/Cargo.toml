[package]
name = "chess_lobby"
version = "0.1.0"
edition = "2021"
publish = false

[dependencies]
cozy-chess = "*"
uuid = { version = "*", features = ["v4"] }
rand = "*"
tokio = { version = "1", features = ["rt-multi-thread", "macros", "sync"] }
axum = { version = "0.6", features = ["ws"] }
futures = "0.3"
log = "*"
simple_logger = "*"
tower-http = { version = "0.4", features = ["fs"] }
serde = { version = "*", features = ["derive"] }
