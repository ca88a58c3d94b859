[package]
name = "rust_agent"
version = "0.1.0"
edition = "2021"
publish = false

[dependencies]
async-openai = { version = "=0.42.1", features = ["chat-completion"] }
async-trait = "*"
clap = { version = "*", features = ["derive"] }
dotenv = "*"
futures = "*"
serde_json = "*"
thiserror = "*"
tokio = { version = "*", features = ["full"] }
tracing-subscriber = "*"
