[package]
name = "meliclaw_intent_router"
version = "0.1.0"
edition = "2021"
publish = false

[dependencies]
serde = { version = "1", features = ["derive"] }
serde_json = "1"
serde_yaml = "0.9"
base64 = "0.22"
sha2 = "0.10"
thiserror = "1"
async-trait = "0.1"
ndarray = "0.16"
rand = "0.8"
tokio = { version = "1", features = ["macros", "rt-multi-thread", "net", "sync", "io-util"] }
reqwest = { version = "0.12", default-features = false, features = ["json"] }
tokio-postgres = "0.7"
axum = "0.7"
tower-http = { version = "0.6", features = ["cors", "trace"] }
tracing = "0.1"
tracing-subscriber = { version = "0.3", features = ["env-filter", "fmt"] }
clap = { version = "4", features = ["derive", "env"] }
