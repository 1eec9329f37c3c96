[package]
name = "dvd_categorize"
version = "0.1.0"
edition = "2021"
publish = false

[dependencies]
serde = { version = "=1.0.229", features = ["derive"] }
serde_json = "=1.0.154"
csv = "=1.4.0"
strsim = "=0.11.1"
reqwest = { version = "=0.13.5", default-features = false, features = ["json"] }
scraper = "=0.29.0"
tokio = { version = "=1.54.1", features = ["macros", "rt-multi-thread"] }
log = "=0.4.35"
env_logger = "=0.11.11"
ollama-rs = "=0.3.6"
clap = { version = "=4.6.7", features = ["derive"] }
dotenv = "=0.15.0"
chrono = "0.4"
uuid = "1"
rand = "*"
