[package]
name = "edix"
version = "0.1.0"
edition = "2021"
publish = false

[dependencies]
anyhow = "1"
calamine = { version = "*", features = ["dates"] }
chrono = "0.4"
clap = { version = "4", features = ["derive"] }
csv = "1"
serde = { version = "1", features = ["derive"] }
strsim = "*"
thiserror = "*"
tokio = { version = "1", features = ["rt", "rt-multi-thread"] }
toml = "*"
xlsxwriter = "*"
