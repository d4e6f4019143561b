[package]
name = "ferrobank"
version = "0.1.0"
edition = "2021"
publish = false

[dependencies]
rust_decimal = "1"
argon2 = { version = "0.5", features = ["std"] }
rand = "0.8"
validator = { version = "0.18", features = ["derive"] }
actix-web = "4"
actix-session = { version = "0.10", features = ["cookie-session"] }
sqlx = { version = "0.8", default-features = false, features = ["postgres", "runtime-tokio", "migrate", "chrono", "rust_decimal", "json"] }
tokio = { version = "1", features = ["macros", "rt-multi-thread", "sync", "time"] }
askama = "0.12"
serde = { version = "1", features = ["derive"] }
serde_json = "1"
reqwest = { version = "0.12", default-features = false, features = ["json", "rustls-tls"] }
chrono = { version = "0.4", features = ["serde"] }
anyhow = "1"
thiserror = "1"
tracing = "0.1"
tracing-subscriber = { version = "0.3", features = ["env-filter"] }
tracing-actix-web = "0.7"
dotenvy = "0.15"
futures = "0.3"
async-trait = "0.1"
