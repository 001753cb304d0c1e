[package]
name = "slime_seed_finder"
version = "0.1.0"
edition = "2021"
publish = false

[dependencies]
ndarray = "0.15"
sha2 = "0.10"
rustc_apfloat = "0.2"
serde = { version = "1", features = ["derive"] }
serde_json = "1"
