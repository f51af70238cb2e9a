[package]
name = "posts_service"
version = "0.1.0"
edition = "2021"
publish = false

[dependencies]
rusqlite = { version = "0.31", features = ["bundled"] }
tera = { version = "1", default-features = false }
serde_urlencoded = "0.7"
uuid = { version = "1", features = ["v4"] }
hyper = { version = "0.14", features = ["http1", "server", "tcp"] }
tokio = { version = "1", features = ["rt-multi-thread", "macros", "net"] }
