[package]
name = "jormungandr"
version = "0.1.0"
edition = "2021"
publish = false

[dependencies]
futures = "0.1"
slog = "2"
tokio = "0.1"
