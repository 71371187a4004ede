[package]
name = "peer_network"
version = "0.1.0"
edition = "2021"
publish = false

[dependencies]
rand = "0.7"
slog = "2"
thiserror = "1"
poldercast = "0.11"
