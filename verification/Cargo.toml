[package]
name = "idl2json"
version = "0.1.0"
edition = "2021"
publish = false

[dependencies]
anyhow = "1"
candid = "0.10"
candid_parser = "0.1"
clap = { version = "4", features = ["derive"] }
serde_json = "1"
