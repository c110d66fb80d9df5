[package]
name = "museum_finder"
version = "0.1.0"
edition = "2021"
publish = false

[dependencies]
anyhow = "1"
osmpbfreader = "*"
reqwest = "0.12"
tokio = { version = "1", features = ["fs", "io-util", "macros", "rt-multi-thread", "sync"] }
