[package]
name = "drawdb"
version = "0.1.0"
edition = "2021"
publish = false

[dependencies]
rs-snowflake = "*"
itertools = "*"
serde = { version = "1", features = ["derive"] }
serde_json = "1"
thiserror = "*"
toml = "*"
once_cell = "1"
lazy_static = "1"
actix-web = { version = "4", default-features = false, features = ["macros"] }
sea-orm = { version = "1", default-features = false, features = ["macros", "sqlx-sqlite", "runtime-tokio-rustls"] }
tracing-subscriber = { version = "0.3", features = ["env-filter"] }
rusqlite = "*"
