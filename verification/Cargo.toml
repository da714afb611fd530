[package]
name = "excel_reader"
version = "0.1.0"
edition = "2021"
publish = false

[dependencies]
quick-xml = "0.37"
anyhow = "1"
serde = { version = "1", features = ["derive"] }
