[package]
name = "microvm"
version = "0.1.0"
edition = "2021"
publish = false

[dependencies]
anyhow = "1"
bollard = "0.16"
clap = "4"
digest = "0.10"
displaydoc = "0.2"
futures-util = "0.3"
semver = "1"
serde = { version = "1", features = ["derive"] }
serde_json = "1"
sha2 = "0.10"
tar = "0.4"
tempfile = "3"
thiserror = "2"
tokio = { version = "1", features = ["rt-multi-thread", "macros"] }
userfaultfd = "0.8"
vmm-sys-util = "0.12"
walkdir = "2"
