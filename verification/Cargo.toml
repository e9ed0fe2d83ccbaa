[package]
name = "code_hunt"
version = "0.1.0"
edition = "2021"
publish = false

[dependencies]
base64 = "*"
axum = "*"
serde = { version = "*", features = ["derive"] }
tokio = { version = "*", features = ["macros", "rt-multi-thread", "net"] }
tracing = "*"
