[package]
name = "unipac"
version = "0.1.0"
edition = "2021"
publish = false

[dependencies]
indexmap = "=2.14.2"
tabled = "=0.22.0"
clap = { version = "=4.6.7", features = ["derive"] }
console = "=0.16.6"
dialoguer = "=0.12.0"
directories = "=6.0.0"
indicatif = "=0.18.6"
toml = "=1.2.1"
serde = { version = "=1.0.229", features = ["derive"] }
libloading = "=0.9.0"
anyhow = "=1.0.104"
tokio = { version = "=1.54.1", features = ["rt-multi-thread"] }
safer-ffi = { version = "=0.1.13", features = ["headers"] }
config = { version = "=0.15.27", default-features = false, features = ["toml"] }
