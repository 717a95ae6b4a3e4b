[package]
name = "macro_core"
version = "0.1.0"
edition = "2021"
publish = false

[dependencies]
uuid = "1"
chrono = { version = "0.4", default-features = false, features = ["clock", "std"] }
gh-workflow = "*"
guppy = "*"
axum = "0.8"
tokio = { version = "1", features = ["macros", "rt-multi-thread", "net"] }
serde = { version = "1", features = ["derive"] }
serde_json = "1"
clap = { version = "4", features = ["derive"] }
anyhow = "1"
tracing = "0.1"
thiserror = "2"
sqlx = { version = "0.8", default-features = false, features = ["postgres", "uuid", "runtime-tokio"] }
