[package]
name = "asteria"
version = "0.1.0"
edition = "2021"
publish = false

[dependencies]
async-compat = "0.2"
async-graphql = "7"
async-graphql-rocket = "7"
bigdecimal = "0.3"
crossbeam-channel = "0.5"
dotenv = "0.15"
num-traits = "0.2"
reqwest = { version = "0.12", default-features = false, features = ["json", "rustls-tls"] }
rocket = "0.5"
serde = { version = "1", features = ["derive"] }
serde_json = "1"
sqlx = { version = "0.7", default-features = false, features = ["bigdecimal", "postgres", "runtime-tokio"] }
tracing = "0.1"
tracing-subscriber = "0.3"
