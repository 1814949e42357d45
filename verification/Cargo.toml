[package]
name = "sentry_breadcrumbs"
version = "0.1.0"
edition = "2021"
publish = false

[dependencies]
serde_json = "*"
sentry-core = "*"
tracing-core = "*"
tracing-subscriber = { version = "*", features = ["fmt", "json", "registry"] }
