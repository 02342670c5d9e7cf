[package]
name = "cim_domain_nix"
version = "0.1.0"
edition = "2021"
publish = false

[dependencies]
rnix = "0.11"
rowan = "0.15"
uuid = { version = "1", features = ["v4", "v7"] }
chrono = "0.4"
serde = { version = "1", features = ["derive"] }
serde_json = "1"
