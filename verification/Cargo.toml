[package]
name = "llm_from_scratch"
version = "0.1.0"
edition = "2021"
publish = false

[dependencies]
regex = "1"
tiktoken = "*"
clap = { version = "4", features = ["derive"] }
