[package]
name = "qp_hd"
version = "0.1.0"
edition = "2021"
publish = false

[dependencies]
bip39 = "2"
blake3 = "1"
sha2 = "0.10"
hex = "0.4"
thiserror = "1"
clap = { version = "4", features = ["derive"] }
quantom_value = "0.1.0"
