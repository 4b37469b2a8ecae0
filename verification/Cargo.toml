[package]
name = "oswatch"
version = "0.1.0"
edition = "2021"
publish = false

[dependencies]
chrono = "*"
serde_json = "*"
handlebars = "*"
reqwest = { version = "*", default-features = false }
serde = { version = "*", features = ["derive"] }
toml = "*"
opensearch = "*"
tokio = { version = "*", features = ["macros", "rt-multi-thread", "sync", "time"] }
