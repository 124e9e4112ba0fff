[package]
name = "beardist"
version = "0.1.0"
edition = "2021"
publish = false

[dependencies]
serde_json = "=1.0.151"
semver = "=1.0.28"
sha2 = "=0.10.9"
rand = "=0.9.5"
serde = { version = "=1.0.229", features = ["derive"] }
reqwest = { version = "=0.12.28", default-features = false, features = ["blocking", "json"] }
convert_case = "=0.6.0"
camino = "1"
timelord = "*"
