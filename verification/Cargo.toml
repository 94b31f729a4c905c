[package]
name = "skyeng_words"
version = "0.1.0"
edition = "2021"
publish = false

[dependencies]
anyhow = "1"
clap = { version = "3.2", features = ["derive", "env"] }
dotenv = "0.15"
env_logger = "0.9"
log = "0.4"
reqwest = { version = "0.11", default-features = false, features = ["json", "cookies", "rustls-tls"] }
scraper = { version = "0.13", default-features = false }
sea-orm = { version = "0.8", default-features = false, features = ["macros", "sqlx-sqlite", "runtime-tokio-rustls"] }
serde = { version = "1", features = ["derive"] }
thiserror = "1"
tokio = { version = "1", features = ["macros", "rt-multi-thread"] }
xlsxwriter = "0.3"
