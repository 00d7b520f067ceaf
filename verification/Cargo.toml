[package]
name = "lsp_liquidity"
version = "0.1.0"
edition = "2021"
publish = false

[dependencies]
bitcoin = "0.29.2"
chrono = { version = "0.4", features = ["serde"] }
lightning = "0.0.117"
serde = { version = "1", features = ["derive"] }
serde_json = "1"
