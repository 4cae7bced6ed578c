[package]
name = "dns_bench"
version = "0.1.0"
edition = "2021"
publish = false

[dependencies]
clap = { version = "4", features = ["derive", "cargo"] }
csv = "1"
directories = "5"
hickory-resolver = "0.24"
indicatif = "0.17"
quick-xml = "0.37"
serde = { version = "1", features = ["derive"] }
serde_json = "1"
tabled = "0.17"
toml = "0.8"
