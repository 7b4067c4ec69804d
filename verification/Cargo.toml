[package]
name = "asn1_bindings"
version = "0.1.0"
edition = "2021"
publish = false

[dependencies]
cc = "*"
prettyplease = "*"
serde = { version = "*", features = ["derive"] }
syn = { version = "*", features = ["full"] }
toml = "*"
