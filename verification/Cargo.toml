[package]
name = "veriai"
version = "0.1.0"
edition = "2021"
publish = false

[dependencies]
sha2 = "0.10"
ed25519-dalek = { version = "2", features = ["rand_core"] }
p384 = { version = "0.13", features = ["ecdsa", "pkcs8", "pem"] }
x509-cert = { version = "0.2", features = ["pem"] }
base64ct = { version = "1", features = ["alloc"] }
hex = "0.4"
rand_core = { version = "0.6", features = ["getrandom"] }
ciborium = "0.2"
coset = "0.3"
serde = { version = "1", features = ["derive"] }
serde_json = "1"
serde_bytes = "0.11"
thiserror = "1"
async-trait = "0.1"
clap = { version = "4", features = ["derive"] }
tokio = { version = "1", features = ["full"] }
axum = "0.7"
tower-http = { version = "0.5", features = ["limit", "trace"] }
tracing = "0.1"
tracing-subscriber = { version = "0.3", features = ["env-filter"] }
fs2 = "0.4"
wasm-bindgen = "0.2"
serde-wasm-bindgen = "0.6"
aws-nitro-enclaves-nsm-api = "0.4"

[dev-dependencies]
x509-cert = { version = "0.2", features = ["pem", "builder"] }
