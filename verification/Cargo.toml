[package]
name = "rustykelvinbot"
version = "0.1.0"
edition = "2021"
publish = false

[dependencies]
toml = "*"
markdown = "*"
serenity = "*"
tokio = { version = "*", features = ["rt-multi-thread", "macros", "time"] }
reqwest = { version = "*", default-features = false, features = ["json", "rustls-tls"] }
serde = { version = "*", features = ["derive"] }
chrono = "*"
deepseek_rs = "*"
thiserror = "*"
anyhow = "*"
tracing = "*"
