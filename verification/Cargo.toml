[package]
name = "genpi"
version = "0.1.0"
edition = "2021"
publish = false

[dependencies]
anyhow = "1"
async-trait = "0.1"
axum = "0.7"
clap = { version = "4", features = ["derive"] }
rand = "=0.8.8"
reqwest = { version = "0.11", default-features = false, features = ["rustls-tls"] }
scraper = { version = "=0.18.1", features = ["deterministic"] }
serde = { version = "1", features = ["derive"] }
serde_json = "1"
thiserror = "1"
time = { version = "=0.3.55", features = ["formatting", "macros", "parsing"] }
tokio = { version = "1", features = ["full"] }
tower = { version = "0.4", features = ["util"] }
tower-http = { version = "0.5", features = ["request-id", "trace"] }
tracing = "0.1"
