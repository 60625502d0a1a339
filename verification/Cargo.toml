[package]
name = "bn254_verify"
version = "0.1.0"
edition = "2021"

[dependencies]
gnark-bn254-verifier = "=1.0.2"
ark-bn254 = "=0.4.0"
ark-ff = "=0.4.2"
ark-serialize = "=0.4.2"
anyhow = "*"
clap = { version = "*", features = ["derive"] }
serde = { version = "*", features = ["derive"] }
serde_json = "*"

[dev-dependencies]
ark-groth16 = "=0.4.0"
ark-relations = "=0.4.0"
ark-std = "=0.4.0"
ark-ec = "=0.4.2"
