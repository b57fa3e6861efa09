[package]
name = "merter"
version = "0.0.1"
edition = "2021"
publish = false

[dependencies]
clap = "2"
config = { version = "0.11", default-features = false, features = ["toml"] }
csv = "1"
dirs = "3"
futures = "0.3"
reqwest = { version = "0.11", default-features = false, features = ["json", "rustls-tls"] }
serde = { version = "1", features = ["derive"] }
text_io = "0.1"
tokio = { version = "1", features = ["macros", "rt-multi-thread", "time"] }
toml = "0.5"
