[package]
name = "madrpc"
version = "0.1.0"
edition = "2021"
publish = false

[dependencies]
serde = { version = "=1.0.229", features = ["derive"] }
serde_json = "=1.0.154"
tokio = { version = "=1.54.1", features = ["full"] }
hyper = { version = "=1.12.0", features = ["full"] }
hyper-util = { version = "=0.1.21", features = ["full"] }
http-body-util = "=0.1.5"
axum = "=0.8.9"
tower-http = { version = "=0.7.1", features = ["cors"] }
tracing = "=0.1.44"
tracing-subscriber = { version = "=0.3.23", features = ["env-filter"] }
argh = "=0.1.19"
crossterm = "=0.29.0"
ratatui = "=0.30.2"
rand = "=0.10.3"
anyhow = "=1.0.104"
thiserror = "=2.0.21"
futures = "=0.3.34"
ajj = "=0.7.1"
