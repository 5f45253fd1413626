[package]
name = "simplex"
version = "0.1.0"
edition = "2021"
publish = false

[dependencies]
simplicityhl = "*"
elements-miniscript = "*"
bip39 = { version = "*", features = ["rand"] }
bitcoin_hashes = "*"
dyn-clone = "*"
pathdiff = "*"
prettyplease = "*"
proc-macro2 = "*"
quote = "*"
syn = { version = "*", features = ["full"] }
serde = { version = "*", features = ["derive"] }
serde_json = "*"
thiserror = "*"
either = "*"
