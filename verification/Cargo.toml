[package]
name = "zephyrchain"
version = "0.1.0"
edition = "2021"
publish = false

[dependencies]
chrono = { version = "0.4", default-features = false, features = ["clock", "std"] }
zstd = "0.13"
serde = { version = "1", features = ["derive"] }
serde_json = "1"
lazy_static = "1"
log = "0.4"
thiserror = "1"
tokio = { version = "1", features = ["sync", "rt", "macros", "time"] }
async-trait = "0.1"
rayon = "1"
