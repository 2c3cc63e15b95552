[package]
name = "sealtrust_nautilus"
version = "0.1.0"
edition = "2021"
publish = false

[dependencies]
fastcrypto = "=0.1.11"
hex = "=0.4.3"
rand = "=0.8.8"
sha2 = "=0.10.9"
serde = { version = "*", features = ["derive"] }
serde_json = "*"
axum = "*"
tokio = { version = "*", features = ["macros", "rt-multi-thread", "net"] }
tower-http = { version = "*", features = ["cors"] }
reqwest = { version = "*", default-features = false }
tracing = "*"
tracing-subscriber = "*"

[dev-dependencies]
bcs = "=0.2.1"
