[package]
name = "brumby_soccer"
version = "0.1.0"
edition = "2021"
publish = false

[dependencies]
anyhow = "1"
bincode = { version = "2", features = ["derive"] }
racing_scraper = "*"
rustc-hash = "1"
serde = { version = "1", features = ["derive"] }
thiserror = "1"
