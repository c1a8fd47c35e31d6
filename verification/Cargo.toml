[package]
name = "connchk"
version = "0.7.0"
edition = "2021"
publish = false

[dependencies]
clap = "2.33"
rayon = "1.5"
reqwest = { version = "0.11", features = ["blocking", "json"] }
serde = { version = "1.0", features = ["derive"] }
serde_json = "1.0"
toml = "0.5"
