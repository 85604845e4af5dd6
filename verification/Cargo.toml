[package]
name = "dynamic_schema"
version = "0.1.0"
edition = "2021"
publish = false

[dependencies]
async-graphql = "*"
serde = { version = "*", features = ["derive"] }
serde_json = "*"
thiserror = "*"
tokio = { version = "*", features = ["rt-multi-thread", "macros"] }

[dev-dependencies]
