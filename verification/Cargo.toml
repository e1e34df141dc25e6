[package]
name = "bctop"
version = "0.1.0"
edition = "2021"
publish = false

[dependencies]
bollard = "0.14"
chrono = "0.4"
crossterm = "0.25"
eyre = "0.6"
futures = "0.3"
log = "0.4"
log4rs = "1"
reqwest = { version = "0.11", features = ["json"] }
serde = { version = "1", features = ["derive"] }
tokio = { version = "1", features = ["full"] }
tui = "0.19"
