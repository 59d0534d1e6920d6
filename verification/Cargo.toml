[package]
name = "xtal"
version = "0.1.0"
edition = "2021"
publish = false

[dependencies]
flate2 = "1"
directories = "*"
csv = "1"
serde = { version = "1", features = ["derive"] }
serde_json = "1"
toml = "*"
toml_edit = "*"
clap = { version = "4", features = ["derive"] }
anyhow = "1"
thiserror = "*"
console = "*"
dialoguer = "*"
encoding_rs_io = "*"
indexmap = "2"
