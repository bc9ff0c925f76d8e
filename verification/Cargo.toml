[package]
name = "price_loom"
version = "0.1.0"
edition = "2021"
publish = false

[dependencies]
anyhow = "*"
axum = "*"
bytes = "*"
chrono = { version = "*", features = ["serde"] }
csv = "*"
dotenvy = "*"
object_store = "*"
ordered-float = { version = "*", features = ["serde"] }
reqwest = "0.12"
serde = { version = "*", features = ["derive"] }
serde-env = "*"
serde_json = "*"
sqlx = { version = "*", default-features = false, features = ["runtime-tokio", "postgres", "chrono", "uuid", "macros"] }
strum = { version = "*", features = ["derive"] }
tokio = { version = "*", features = ["macros", "rt-multi-thread", "net"] }
tracing = "*"
tracing-subscriber = "*"
url = "*"
uuid = "*"
zip = { version = "*", default-features = false, features = ["deflate"] }
