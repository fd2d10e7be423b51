[package]
name = "kiteconnect"
version = "0.1.0"
edition = "2021"
publish = false

[dependencies]
sha2 = "=0.11.0"
hex = "=0.4.3"
serde_json = "=1.0.151"
anyhow = "=1.0.104"
reqwest = { version = "=0.13.5", default-features = false, features = ["json", "form"] }
