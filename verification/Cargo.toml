[package]
name = "reddit_stream"
version = "0.1.0"
edition = "2021"
publish = false

[dependencies]
serde_json = "=1.0.151"
base64 = "=0.23.1"
chrono = "=0.4.45"
reqwest = { version = "=0.13.5", default-features = false, features = ["form"] }
rdkafka = "=0.39.0"
tokio = { version = "=1.53.2", features = ["rt-multi-thread", "macros", "time"] }
dotenv = "=0.15.0"
