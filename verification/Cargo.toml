[package]
name = "daphne"
version = "0.3.0"
edition = "2021"
publish = false

[dependencies]
hex = "=0.4.3"
prio = { version = "=0.10.3", features = ["prio2"] }
serde = { version = "=1.0.229", features = ["derive"] }
serde_json = "=1.0.154"
thiserror = "=1.0.69"
url = "=2.5.8"

[dev-dependencies]
rand = "=0.8.8"
