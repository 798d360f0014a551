[package]
name = "rustbot"
version = "0.1.0"
edition = "2021"
publish = false

[dependencies]
rand = "*"
rsbwapi = "*"
serde = { version = "*", features = ["derive"] }
axum = "*"
tokio = { version = "*", features = ["rt-multi-thread", "net", "sync", "macros"] }
tower-http = { version = "*", features = ["cors", "fs"] }
