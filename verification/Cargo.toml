[package]
name = "product_service"
version = "0.1.0"
edition = "2021"
publish = false

[dependencies]
axum = "*"
bigdecimal = { version = "*", features = ["serde"] }
chrono = { version = "*", features = ["serde"] }
serde = { version = "*", features = ["derive"] }
serde_json = "*"
sqlx = { version = "*", features = ["runtime-tokio", "mysql", "chrono", "bigdecimal"] }
tera = "*"
tokio = { version = "*", features = ["rt-multi-thread", "macros"] }
