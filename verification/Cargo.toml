[package]
name = "task_query"
version = "0.1.0"
edition = "2021"
publish = false

[dependencies]
async-graphql = "*"
axum = "*"
chrono = "*"
sqlx = { version = "*", default-features = false, features = ["sqlite", "runtime-tokio"] }
thiserror = "*"
tokio = { version = "*", features = ["macros", "rt-multi-thread"] }
tower-http = { version = "*", features = ["cors"] }
