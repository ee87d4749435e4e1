[package]
name = "svalin_pki"
version = "0.1.0"
edition = "2021"
publish = false

[dependencies]
ring = "=0.17.14"
x509-parser = { version = "=0.18.1", features = ["verify"] }
argon2 = "=0.5.3"
rand = "=0.9.5"
hpke = "=0.15.1"
ed25519-dalek = { version = "=2.2.0", features = ["pkcs8"] }
rcgen = { version = "=0.14.10", features = ["x509-parser"] }
time = "=0.3.55"
serde = { version = "=1.0.229", features = ["derive"] }
postcard = { version = "=1.1.3", features = ["use-std"] }
tokio = { version = "=1.54.1", features = ["rt-multi-thread", "macros"] }
sha2 = "=0.10.9"
zeroize = "=1.9.1"
thiserror = "=2.0.21"
anyhow = "=1.0.104"
chrono = "=0.4.45"

[dev-dependencies]
serde_json = "=1.0.154"
