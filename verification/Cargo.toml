[package]
name = "supervisor"
version = "0.1.0"
edition = "2021"
publish = false

[dependencies]
getrandom = "0.3"
libc = "0.2"
nix = { version = "0.30", features = ["process", "signal", "user", "fs"] }
rand = "0.8"
serde = { version = "1", features = ["derive"] }
serde_json = "1"
sha2 = "0.10"
thiserror = "2"
tokio = { version = "1", features = ["rt", "rt-multi-thread", "sync", "time", "fs", "io-util", "process", "macros", "net"] }
