[package]
name = "use-rust"
version = "0.1.0"
edition = "2021"
publish = false

[dependencies]
semver = { version = "1", features = ["serde"] }
serde = { version = "1", features = ["derive"] }
toml_edit = "0.22"
camino = { version = "1", features = ["serde1"] }
cargo_metadata = "0.19"
