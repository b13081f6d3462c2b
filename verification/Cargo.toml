[package]
name = "geyser_selectors"
version = "0.1.0"
edition = "2021"
publish = false

[dependencies]
anyhow = "1"
hashbrown = "0.12"
itertools = "0.10"
lapin = { version = "2", default-features = false }
serde = { version = "1", features = ["derive"] }
solana-program = "1.18"
spl-token = "4"
