[package]
name = "ringside"
version = "0.1.0"
edition = "2021"
publish = false

[dependencies]
chrono = "0.4"
clap = { version = "4", features = ["derive"] }
fs_extra = "1"
rayon = "1"
serde = { version = "1", features = ["derive"] }
tempfile = "3"
thiserror = "1"
toml = "0.8"

[dev-dependencies]
regex = "1"
