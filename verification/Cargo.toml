[package]
name = "rccopy"
version = "0.1.0"
edition = "2021"
publish = false

[dependencies]
chrono = { version = "0.4", default-features = false, features = ["std"] }
clap = { version = "4", features = ["derive"] }
filetime_creation = "*"
md-5 = "0.10"
sha1 = "0.10"
whoami = "1"
xml-rs = "0.8"
xxhash-rust = { version = "0.8", features = ["xxh64"] }
