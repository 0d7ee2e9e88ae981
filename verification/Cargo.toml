[package]
name = "favicon_fetcher"
version = "0.1.0"
edition = "2021"
publish = false

[dependencies]
scraper = "*"
url = "*"
image = { version = "*", default-features = false, features = ["png", "ico", "jpeg", "gif", "bmp", "webp"] }
axum = "*"
tokio = { version = "*", features = ["macros", "rt-multi-thread", "net"] }
reqwest = { version = "*", default-features = false }
serde = { version = "*", features = ["derive"] }
tracing = "*"
tracing-subscriber = "*"
