[package]
name = "qfinder"
version = "0.1.0"
edition = "2021"
publish = false

[dependencies]
encoding_rs = "0.8"
chardetng = "0.1"
uuid = { version = "1", features = ["v4"] }
calamine = "0.34"
zip = { version = "7", default-features = false, features = ["deflate"] }
serde = { version = "1", features = ["derive"] }
serde_json = "1"
thiserror = "2"
tokio = { version = "1", features = ["rt-multi-thread", "fs", "process", "sync", "macros", "time"] }
trash = "5"
which = "*"
dirs = "*"
open = "5"
windows-sys = { version = "*", features = ["Win32_Storage_FileSystem"] }
