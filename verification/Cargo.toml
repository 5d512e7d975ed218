[package]
name = "crate_registry"
version = "0.1.0"
edition = "2021"
publish = false

[dependencies]
chrono = { version = "*", features = ["serde"] }
clap = "*"
diesel = { version = "*", features = ["postgres", "chrono"] }
log = "*"
rocket = { version = "*", features = ["json"] }
rocket_db_pools = { version = "*", features = ["deadpool_redis"] }
rocket_sync_db_pools = { version = "*", features = ["diesel_postgres_pool"] }
serde = { version = "*", features = ["derive"] }
