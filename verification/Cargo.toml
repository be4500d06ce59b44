[package]
name = "chat"
version = "0.1.0"
edition = "2021"
publish = false

[dependencies]
sea-orm = { version = "0.10", default-features = false, features = ["macros", "with-json", "with-chrono", "with-uuid"] }
sea-orm-migration = { version = "0.10", default-features = false }
async-trait = "0.1"
uuid = { version = "1", features = ["v4", "serde"] }
chrono = { version = "0.4", features = ["serde"] }
serde = { version = "1", features = ["derive"] }
serde_json = "1"
tokio = { version = "1", features = ["rt-multi-thread", "macros", "sync", "time"] }
warp = { version = "0.3", default-features = false, features = ["websocket"] }
futures = "0.3"
log = "0.4"
env_logger = "0.10"
config = { version = "0.13", default-features = false, features = ["json"] }
dotenv = "0.15"
