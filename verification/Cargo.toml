[package]
name = "zk_prover"
version = "0.1.0"
edition = "2021"
publish = false

[dependencies]
ark-bn254 = "=0.4.0"
ark-ec = "=0.4.2"
ark-ff = "=0.4.2"
ark-groth16 = "=0.4.0"
ark-serialize = "=0.4.2"
ark-snark = "=0.4.0"
ark-std = "=0.4.0"
ff_ce = "0.11"
hex = "0.4"
num-bigint = "0.4"
num-traits = "0.2"
poseidon-rs = "*"
serde = { version = "1", features = ["derive"] }
serde_json = "1"

[dev-dependencies]
ark-relations = "=0.4.0"
