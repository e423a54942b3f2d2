[package]
name = "cns_name_registry"
version = "0.1.0"
edition = "2021"
publish = false

[dependencies]
candid = "0.10"
ic-cdk = "0.13"
ic-stable-structures = "0.6"
lazy_static = "1.4"
serde = { version = "1", features = ["derive"] }
thiserror = "1"
