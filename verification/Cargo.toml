[package]
name = "heimdall"
version = "0.1.0"
edition = "2021"
publish = false

[dependencies]
actix-files = "0.6"
actix-http = "3"
actix-utils = "3"
actix-web = { version = "4", default-features = false, features = ["macros", "cookies"] }
awc = { version = "3", default-features = false, features = ["openssl"] }
chrono = "=0.4.45"
dotenvy = "=0.15.7"
log = "0.4"
pretty_env_logger = "0.5"
rand = "=0.8.8"
reqwest = { version = "=0.12.28", features = ["blocking", "json"] }
serde = { version = "=1.0.229", features = ["derive"] }
serde_json = "=1.0.154"
sqlx = { version = "0.8", default-features = false, features = ["sqlite", "runtime-tokio", "derive"] }
tokio = { version = "1", features = ["sync", "process", "rt-multi-thread", "macros"] }
utoipa = { version = "4", features = ["actix_extras"] }
