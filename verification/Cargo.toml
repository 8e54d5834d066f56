[package]
name = "llama_wrap"
version = "0.1.0"
edition = "2021"
publish = false

[dependencies]
anyhow = "1"
cc = "1"
cmake = "0.1"
glob = "0.3"
