[package]
name = "youtube_to_podcast"
version = "0.1.0"
edition = "2021"
publish = false

[dependencies]
chrono = "0.4"
dotenv = "0.15"
regex = "1"
reqwest = { version = "0.12", features = ["blocking", "json"] }
rustls = { version = "0.23", features = ["ring"] }
serde = { version = "1", features = ["derive"] }
serde_json = "1"
tokio = { version = "1", features = ["macros", "rt-multi-thread"] }
youtube_dl = "0.10"
yup-oauth2 = "*"
