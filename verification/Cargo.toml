[package]
name = "casino_bot"
version = "0.1.0"
edition = "2021"
rust-version = "1.95"
publish = false

[dependencies]
chrono = "=0.4.45"
log = "0.4"
once_cell = "=1.21.4"
pretty_env_logger = "0.5"
rand = "=0.10.3"
serde = { version = "1", features = ["derive"] }
serde_json = "=1.0.154"
sqlx = { version = "=0.8.6", default-features = false, features = ["chrono", "postgres", "runtime-tokio", "tls-rustls"] }
takecell = "=0.1.1"
teloxide = { version = "=0.17.0", default-features = false, features = ["ctrlc_handler", "rustls"] }
tokio = { version = "1", features = ["io-util", "macros", "net", "rt-multi-thread", "time"] }
