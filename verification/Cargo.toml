[package]
name = "stealthsnark"
version = "0.1.0"
edition = "2021"
publish = false

[dependencies]
anyhow = "1"
ark-bn254 = "0.5"
ark-ec = "0.5"
ark-ff = "0.5"
ark-groth16 = "0.5"
ark-poly = "0.5"
ark-relations = "0.5"
ark-serialize = "0.5"
ark-snark = "0.5"
ark-std = "0.5"
axum = { version = "0.7", default-features = false, features = ["http1", "tokio"] }
bincode = "1"
num-bigint = "0.4"
rand = "0.8"
rand_chacha = "0.3"
rayon = "1"
reqwest = { version = "0.12", default-features = false }
serde = { version = "1", features = ["derive"] }
thiserror = "1"
tokio = { version = "1", features = ["rt-multi-thread", "macros", "net", "sync"] }
tracing = "0.1"
tracing-subscriber = { version = "0.3", default-features = false, features = ["fmt"] }
