[package]
name = "dt_core"
version = "0.1.0"
edition = "2021"
publish = false

[dependencies]
anyhow = "1"
sqlx = { version = "=0.7.4", default-features = false, features = ["mysql", "runtime-tokio-rustls"] }
