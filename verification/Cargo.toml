[package]
name = "manifester"
version = "0.1.0"
edition = "2021"
publish = false

[dependencies]
anyhow = "1"
globwalk = "0.9"
image = { version = "0.24", default-features = false, features = ["png", "jpeg"] }
indicatif = "0.17"
num_cpus = "1"
rayon = "1"
reqwest = { version = "0.11", default-features = false, features = ["blocking", "json"] }
serde = { version = "1", features = ["derive"] }
serde_json = "1"
serde_yaml = "0.9"
url = { version = "2", features = ["serde"] }
