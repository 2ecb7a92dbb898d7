[package]
name = "wash_lib"
version = "0.1.0"
edition = "2021"
publish = false

[dependencies]
serde_json = "*"
anyhow = "*"
clap = { version = "*", features = ["derive"] }
tokio = { version = "*", features = ["rt-multi-thread", "time", "macros", "fs"] }
wasmcloud-control-interface = "*"
