[package]
name = "modcrawl"
version = "0.1.0"
edition = "2021"
publish = false

[dependencies]
zipcrawl = "*"
java-class-rs = "*"
serde = { version = "1", features = ["derive"] }
serde_json = "1"
toml = "*"
serde-saphyr = "*"
thiserror = "*"
miette = "*"
clap = { version = "4", features = ["derive"] }

