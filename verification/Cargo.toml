[package]
name = "syauth"
version = "0.1.0"
edition = "2021"
publish = false

[dependencies]
hkdf = "=0.12.4"
sha2 = "=0.10.9"
getrandom = "=0.3.4"
rand = "=0.8.8"
serde_json = "=1.0.154"
hex = "0.4"
tokio = { version = "1", features = ["rt-multi-thread", "net", "time", "io-util", "sync", "macros", "fs"] }
nix = { version = "0.29", features = ["user"] }
