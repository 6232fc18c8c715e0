[package]
name = "autodcr_bridge"
version = "0.1.0"
edition = "2021"
publish = false

[dependencies]
sha2 = "0.10"
hex = "0.4"
base64 = "0.22"
x509-parser = "0.16"
cms = "0.2"
der = { version = "0.7", features = ["alloc", "oid", "std"] }
x509-cert = "0.2"
const-oid = { version = "0.9", features = ["db"] }
spki = "0.7"
cryptoki = "0.7"
rusb = "0.9"
directories = "5"
toml = "0.8"
serde = { version = "1", features = ["derive"] }
serde_json = "1"
tracing = "0.1"
tracing-appender = "0.2"
tracing-subscriber = { version = "0.3", features = ["env-filter"] }
anyhow = "1"
thiserror = "1"
