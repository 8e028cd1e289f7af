[package]
name = "churro_cli"
version = "0.1.0"
edition = "2021"
publish = false

[dependencies]
anyhow = "1"
crossterm = "0.25"
dotenv = "0.15"
eyre = "0.6"
hyper = { version = "0.14", features = ["server", "http1", "tcp"] }
log = "0.4"
oauth2 = { version = "4", default-features = false, features = ["reqwest", "rustls-tls"] }
reqwest = { version = "0.11", default-features = false, features = ["json", "rustls-tls"] }
serde = { version = "1", features = ["derive"] }
serde_json = "1"
tokio = { version = "1", features = ["rt-multi-thread", "macros", "sync", "time"] }
tui = { version = "0.19", default-features = false, features = ["crossterm"] }
tui-logger = "0.8"
url = "2"
webbrowser = "0.8"
