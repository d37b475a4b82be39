[package]
name = "docs_rs"
version = "0.6.0"
edition = "2021"
publish = false

[dependencies]
anyhow = "1"
async-stream = "0.3"
axum = "0.8"
axum-extra = { version = "*", features = ["typed-header"] }
chrono = { version = "0.4", features = ["serde"] }
clap = { version = "4", features = ["derive"] }
futures-util = "0.3"
http = "1"
humantime = "2"
lol_html = "2"
mime = "0.3"
opentelemetry = "*"
opentelemetry-otlp = { version = "*", default-features = false, features = ["grpc-tonic", "metrics"] }
opentelemetry-resource-detectors = "*"
opentelemetry_sdk = { version = "*", features = ["metrics", "rt-tokio"] }
percent-encoding = "2"
reqwest = { version = "0.12", default-features = false, features = ["json"] }
semver = { version = "1", features = ["serde"] }
sentry = { version = "*", default-features = false, features = ["panic", "tracing"] }
sentry-panic = "*"
sentry-tracing = "*"
serde = { version = "1", features = ["derive"] }
serde_json = "1"
sqlx = { version = "0.8", default-features = false, features = ["postgres", "runtime-tokio", "derive"] }
thiserror = "2"
tokio = { version = "1", features = ["rt", "sync", "macros", "io-util"] }
tokio-util = { version = "0.7", features = ["io"] }
tracing = "0.1"
tracing-subscriber = { version = "0.3", features = ["env-filter"] }
url = "2"
