[package]
name = "cmem_server"
version = "0.1.0"
edition = "2021"
publish = false

[dependencies]
sha2 = "0.10"
hex = "0.4"
nanoid = "0.4"
rand = "0.8"
argon2 = "0.5"
ipnet = "2"
serde_json = "1"
chrono = { version = "0.4", default-features = false, features = ["clock", "std"] }
uuid = { version = "1", features = ["v7"] }
serde = { version = "1", features = ["derive"] }
anyhow = "1"
thiserror = "1"
axum = "0.7"
tokio = { version = "1", features = ["rt-multi-thread", "macros", "net"] }
sqlx = { version = "0.8", default-features = false, features = ["runtime-tokio", "sqlite", "macros", "migrate"] }
askama = "0.12"
clap = { version = "4", features = ["derive"] }
tower_governor = "0.4"
governor = "0.6"
tracing = "0.1"
tracing-subscriber = { version = "0.3", features = ["env-filter"] }
toml = "0.8"
jsonwebtoken = "9"
csv = "1"
flate2 = "1"
zip = { version = "2", default-features = false, features = ["deflate"] }
tempfile = "3"
rpassword = "7"
tabled = "0.16"
