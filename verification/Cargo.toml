[package]
name = "stateful"
version = "0.1.0"
edition = "2021"
publish = false

[dependencies]
bytes = "1"
commonware-codec = "=2026.4.0"
commonware-consensus = "=2026.4.0"
commonware-cryptography = "=2026.4.0"
commonware-macros = "=2026.4.0"
commonware-p2p = "=2026.4.0"
commonware-resolver = "=2026.4.0"
commonware-runtime = "=2026.4.0"
commonware-storage = "=2026.4.0"
commonware-utils = "=2026.4.0"
futures = "0.3"
rand = "0.8"
thiserror = "2"
tracing = "0.1"
