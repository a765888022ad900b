[package]
name = "rinfra_plugins"
version = "0.1.0"
edition = "2021"
publish = false

[dependencies]
aes-gcm = "=0.10.3"
rand = "=0.8.8"
lz4_flex = "=0.11.6"
flate2 = "=1.1.10"
uuid = { version = "=1.29.0", features = ["v4"] }
serde = { version = "=1.0.229", features = ["derive"] }
serde_json = "=1.0.154"
serde_yaml = "=0.9.34"
rmp-serde = "=1.3.1"
prost = "=0.13.5"
prost-types = "=0.13.5"
clap = { version = "=4.6.7", features = ["derive"] }
tokio = { version = "=1.54.1", features = ["full"] }
tokio-util = { version = "=0.7.20", features = ["codec"] }
bytes = "=1.12.1"
futures-util = { version = "=0.3.34", features = ["sink"] }
axum = { version = "=0.8.9", features = ["ws"] }
jsonwebtoken = "=9.3.1"
tracing = "=0.1.44"
http-body-util = "0.1"
tower = { version = "0.5", features = ["util"] }
tower-http = { version = "0.6", features = ["cors", "timeout", "trace"] }
tracing-subscriber = { version = "0.3", features = ["env-filter", "json"] }
tracing-appender = "0.2"
moka = { version = "0.12", features = ["future"] }
metrics = "*"
metrics-exporter-prometheus = { version = "*", default-features = false }
redis = { version = "*", features = ["tokio-comp", "connection-manager", "streams", "script"] }
async-nats = "*"
reqwest = { version = "*", default-features = false }
