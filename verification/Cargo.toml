[package]
name = "svls"
version = "0.1.0"
edition = "2021"
publish = false

[dependencies]
enquote = "1"
log = "0.4"
serde = { version = "1", features = ["derive"] }
simplelog = "0.10"
structopt = "0.3"
sv-parser = "0.11"
svlint = "0.4"
tokio = { version = "1", features = ["io-std", "io-util", "macros", "rt"] }
toml = "0.5"
tower-lsp = "0.14"
