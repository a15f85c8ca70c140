[package]
name = "tune_tracker"
version = "0.1.0"
edition = "2021"
publish = false

[dependencies]
clap = { version = "=4.6.7", features = ["derive"] }
futures = "=0.3.34"
rspotify = { version = "=0.16.1", features = ["cli"] }
rspotify-model = "=0.16.1"
submarine = "=0.1.1"
tokio = { version = "=1.53.2", features = ["macros", "rt-multi-thread"] }
