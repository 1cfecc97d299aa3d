[package]
name = "sub"
version = "0.1.0"
edition = "2021"
publish = false

[dependencies]
reqwest = { version = "=0.13.5", default-features = false, features = ["json"] }
tokio = { version = "*", features = ["rt-multi-thread", "macros", "sync", "time"] }
serde = { version = "*", features = ["derive"] }
dotenv = "*"
tracing = "*"
tracing-subscriber = { version = "*", features = ["env-filter"] }
clap = "*"
