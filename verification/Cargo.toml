[package]
name = "ao3_opds"
version = "0.1.0"
edition = "2021"
publish = false

[dependencies]
scraper = "=0.27.0"
chrono = "=0.4.45"
reqwest = { version = "=0.13.5", default-features = false, features = ["cookies", "form"] }
tokio = { version = "=1.53.2", features = ["macros", "rt-multi-thread", "sync"] }
poem = "=3.1.12"
serde = { version = "=1.0.229", features = ["derive"] }
dotenvy = "=0.15.7"
anyhow = "=1.0.104"
