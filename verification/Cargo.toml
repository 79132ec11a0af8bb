[package]
name = "engine"
version = "0.1.0"
edition = "2021"
publish = false

[dependencies]
chrono = { version = "*", default-features = false, features = ["std", "clock"] }
serde = { version = "*", features = ["derive"] }
serde_json = "*"
sqlx = { version = "*", default-features = false, features = ["postgres", "runtime-tokio", "chrono"] }
tokio = { version = "*", features = ["macros", "rt-multi-thread"] }
