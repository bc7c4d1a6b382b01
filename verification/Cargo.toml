[package]
name = "mc_listen"
version = "0.1.0"
edition = "2021"
publish = false

[dependencies]
sha1 = "0.10"
num-bigint = "0.4"
tokio = { version = "1", features = ["rt-multi-thread", "net", "io-util", "macros"] }
clap = { version = "4", features = ["derive"] }
csv = "1"
serde = { version = "1", features = ["derive"] }
