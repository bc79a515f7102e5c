[package]
name = "job_scraper"
version = "0.1.0"
edition = "2021"
publish = false

[dependencies]
urlencoding = "*"
regex = "*"
scraper = "*"
reqwest = { version = "*", default-features = false, features = ["json"] }
tokio = { version = "*", features = ["rt-multi-thread", "macros", "time", "fs", "io-util"] }
futures = "*"
serde = { version = "*", features = ["derive"] }
serde_json = "*"
clap = { version = "*", features = ["derive"] }
chrono = "*"
log = "*"
env_logger = "*"
thiserror = "*"
dotenv = "*"
