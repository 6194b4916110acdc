[package]
name = "chat_gateway"
version = "0.1.0"
edition = "2021"
publish = false

[dependencies]
uwl = "0.6"
tokio = { version = "1", default-features = false, features = ["rt", "sync", "time"] }
futures = { version = "0.3", default-features = false, features = ["std"] }
tracing = "0.1"
typemap_rev = "0.3"
async-trait = "0.1"
serde = { version = "1", features = ["derive"] }
