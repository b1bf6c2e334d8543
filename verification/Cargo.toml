[package]
name = "log_channel"
version = "0.1.0"
edition = "2021"
publish = false

[dependencies]
poise = "*"
sqlx = { version = "*", default-features = false, features = ["postgres", "runtime-tokio"] }
tracing = "*"
