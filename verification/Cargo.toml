[package]
name = "linkpreview"
version = "0.1.0"
edition = "2021"
publish = false

[dependencies]
urlencoding = "*"
axum = "*"
tokio = { version = "*", features = ["rt-multi-thread", "macros", "net", "time", "sync"] }
reqwest = { version = "*", default-features = false }
tower = "*"
tower-http = { version = "*", features = ["trace"] }
serde = { version = "*", features = ["derive"] }
image = "*"
