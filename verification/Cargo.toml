[package]
name = "lan-mouse"
version = "0.1.0"
edition = "2021"
publish = false

[dependencies]
ashpd = { version = "=0.13.13", default-features = false, features = ["tokio", "remote_desktop", "screencast", "clipboard"] }
async-trait = "=0.1.92"
futures = "=0.3.34"
log = "=0.4.35"
num_enum = "=0.7.6"
reis = { version = "=0.5.0", features = ["tokio"] }
thiserror = "=2.0.21"
tokio = { version = "=1.54.1", features = ["rt", "io-util", "fs", "sync", "macros", "net"] }
