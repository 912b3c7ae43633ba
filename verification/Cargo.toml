[package]
name = "poster"
version = "0.1.0"
edition = "2021"
publish = false

[dependencies]
uuid = { version = "1", features = ["v4"] }
serde = { version = "1", features = ["derive"] }
clap = { version = "4", features = ["derive"] }
tokio = { version = "1", features = ["rt-multi-thread", "macros", "net"] }
axum = "0.8"
tower-http = { version = "0.6", features = ["fs"] }
sqlx = { version = "0.8", features = ["runtime-tokio", "sqlite"] }
comrak = "*"
