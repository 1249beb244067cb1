[package]
name = "shortener"
version = "0.1.0"
edition = "2021"
publish = false

[dependencies]
rand = "=0.8.8"
serde = { version = "=1.0.229", features = ["derive"] }
libsql = "=0.9.30"
warp = { version = "=0.4.3", features = ["server"] }
tokio = { version = "=1.53.2", features = ["macros", "rt-multi-thread"] }
