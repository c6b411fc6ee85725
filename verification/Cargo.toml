[package]
name = "backup_decode"
version = "0.1.0"
edition = "2021"
publish = false

[dependencies]
anyhow = "1"
byteorder = "1"
clap = { version = "4", features = ["derive", "cargo"] }
log = "0.4"
openssl = "0.10"
protobuf = "3"
rusqlite = "*"
