[package]
name = "reqwest_wrap_log"
version = "0.1.0"
edition = "2021"
publish = false

[dependencies]
anyhow = "=1.0.104"
chrono = "=0.4.45"
cookie_store = "=0.22.1"
reqwest = { version = "=0.13.5", default-features = false, features = ["cookies", "form"] }
reqwest_cookie_store = "=0.10.0"
serde_json = "=1.0.151"
tokio = { version = "=1.53.2", default-features = false, features = ["rt-multi-thread", "time", "sync"] }
url = "=2.5.8"

[dev-dependencies]
cookie = "=0.18.2"
