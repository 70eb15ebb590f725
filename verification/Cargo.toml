[package]
name = "foundry_judge"
version = "0.1.0"
edition = "2021"
publish = false

[dependencies]
regex = "1"
serde_json = "1"
serde = { version = "1", features = ["derive"] }
redis = "0.24"
tokio = { version = "1", features = ["rt", "rt-multi-thread", "time"] }
clap = "4"
log = "0.4"
log4rs = "1"
ansi_term = "0.12"
