[package]
name = "avanza_ghostfolio"
version = "0.1.0"
edition = "2021"
publish = false

[dependencies]
csv = "1"
dotenv = "0.15"
futures = "0.3"
lazy_static = "1"
reqwest = { version = "0.12", default-features = false, features = ["json", "rustls-tls"] }
rocket = { version = "0.5", features = ["json"] }
rocket_db_pools = { version = "0.2", features = ["sqlx_postgres"] }
rocket_dyn_templates = { version = "0.2", features = ["tera"] }
serde = { version = "1", features = ["derive"] }
serde_json = "1"
uuid = { version = "1", features = ["v4"] }
