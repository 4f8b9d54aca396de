[package]
name = "capi_dao"
version = "0.1.0"
edition = "2021"
publish = false

[dependencies]
algonaut = "=0.9.0"
algonaut_core = "=0.9.0"
anyhow = "=1.0.104"
async-trait = "=0.1.92"
chrono = "=0.4.45"
data-encoding = "=2.11.1"
dotenv = "=0.15.0"
log = "=0.4.34"
serde = { version = "=1.0.229", features = ["derive"] }
tokio = { version = "=1.53.2", features = ["macros", "rt-multi-thread"] }
tokio-postgres = { version = "=0.7.18", features = ["with-chrono-0_4"] }
uuid = { version = "=1.27.0", features = ["v4"] }
warp = { version = "=0.4.3", features = ["server"] }
