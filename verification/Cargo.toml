[package]
name = "prompt_session"
version = "0.1.0"
edition = "2021"
publish = false

[dependencies]
async-openai = "0.14"
chrono = "0.4"
colored = "2"
dotenv = "0.15"
reqwest = { version = "0.11", features = ["json"] }
serde = { version = "1", features = ["derive"] }
serde_derive = "1"
serde_json = "1"
tokio = { version = "1", features = ["macros", "rt-multi-thread"] }
