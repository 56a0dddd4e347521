[package]
name = "ai_context_gen"
version = "0.1.0"
edition = "2021"
publish = false

[dependencies]
anyhow = "1"
chrono = "0.4"
clap = { version = "4", features = ["derive"] }
quote = "1"
serde = { version = "1", features = ["derive"] }
syn = { version = "2", features = ["full"] }
tiktoken-rs = "*"
tokio = { version = "1", features = ["macros", "rt-multi-thread"] }
walkdir = "2"
