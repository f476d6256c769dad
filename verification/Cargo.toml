[package]
name = "lelo"
version = "0.1.0"
edition = "2021"
publish = false

[dependencies]
anyhow = "=1.0.104"
axum = "=0.8.9"
axum-extra = { version = "=0.12.6", features = ["cookie"] }
axum-server = { version = "=0.8.0", features = ["tls-rustls"] }
base64 = "=0.23.1"
chrono = { version = "=0.4.45", features = ["serde"] }
chrono-tz = { version = "=0.10.4", features = ["serde"] }
config = "=0.15.27"
dotenvy = "=0.15.7"
futures-util = "*"
openid = "=0.25.0"
rand = "=0.10.3"
serde = { version = "=1.0.229", features = ["derive"] }
serde_json = "=1.0.154"
sqlx = { version = "=0.9.0", default-features = false, features = ["postgres", "runtime-tokio", "chrono", "uuid", "json", "migrate"] }
thiserror = "*"
tokio = { version = "=1.54.1", features = ["macros", "rt-multi-thread"] }
tower-http = { version = "=0.7.1", features = ["trace"] }
tracing = "=0.1.44"
tracing-bunyan-formatter = "*"
tracing-subscriber = { version = "=0.3.23", features = ["env-filter", "json"] }
url = "=2.5.8"
uuid = { version = "=1.29.0", features = ["v4", "serde"] }
