[package]
name = "prek_python"
version = "0.1.0"
edition = "2021"
publish = false

[dependencies]
anyhow = "=1.0.104"
fs-err = { version = "=3.3.2", features = ["tokio"] }
http = "=1.5.0"
mea = "=0.6.7"
regex = "=1.13.1"
rustc-hash = "=2.1.3"
semver = { version = "=1.0.28", features = ["serde"] }
serde = { version = "=1.0.229", features = ["derive"] }
serde_json = "=1.0.154"
target-lexicon = "=0.13.5"
thiserror = "=2.0.21"
tracing = "=0.1.44"
which = "=8.0.6"
