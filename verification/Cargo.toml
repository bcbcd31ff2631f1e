[package]
name = "gpterm"
version = "0.1.0"
edition = "2021"
publish = false

[dependencies]
crossterm = "0.25"
log = "0.4"
log4rs = "1.2"
reqwest = { version = "0.11", default-features = false, features = ["rustls-tls"] }
serde = { version = "1", features = ["derive"] }
terminal_size = "0.2"
tokio = { version = "1", features = ["macros", "rt-multi-thread"] }
toml = "0.5"
tui = "0.19"
unicode-width = "0.1"
