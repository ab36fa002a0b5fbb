[package]
name = "bob"
version = "0.1.0"
edition = "2021"
publish = false

[dependencies]
clap = { version = "4", features = ["cargo"] }
crc32fast = "1"
log = "0.4"
rand = "0.8"
uefi = "0.28"
uefi-services = { version = "0.25", default-features = false, features = ["logger"] }
