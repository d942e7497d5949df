[package]
name = "wam"
version = "0.1.0"
edition = "2021"
publish = false

[dependencies]
chrono = { version = "0.4", default-features = false, features = ["std"] }
select = "0.6"
clap = "4"
console = "0.15"
futures = "0.3"
reqwest = { version = "0.12", default-features = false, features = ["rustls-tls"] }
serde = { version = "1", features = ["derive"] }
tokio = { version = "1", features = ["rt-multi-thread"] }
toml = "0.8"
zip = { version = "2", default-features = false, features = ["deflate"] }
