[package]
name = "fractal_shell"
version = "0.1.0"
edition = "2021"
publish = false

[dependencies]
axum = "*"
tao = "*"
tokio = { version = "*", features = ["rt-multi-thread", "macros", "net", "fs", "sync"] }
wry = "*"
