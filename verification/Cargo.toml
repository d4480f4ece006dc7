[package]
name = "security_api"
version = "0.1.0"
edition = "2021"
publish = false

[dependencies]
anyhow = "1"
chrono = "0.4"
clap = { version = "4", features = ["derive", "env"] }
deadpool-redis = "*"
futures-util = "0.3"
graphql_client = { version = "*", default-features = false }
log = "0.4"
nanoid = "0.4"
pretty_env_logger = "*"
regex = "1"
reqwest = { version = "0.12", default-features = false, features = ["json", "http2", "rustls-tls"] }
serde = { version = "1", features = ["derive"] }
serde_json = "1"
tokio = { version = "1", features = ["macros", "rt-multi-thread", "sync", "time"] }
twilight-model = "*"
twilight-util = { version = "*", features = ["builder"] }
