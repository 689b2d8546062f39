[package]
name = "switch_query"
version = "0.1.0"
edition = "2021"
publish = false

[dependencies]
hyperast = "0.2.0"
log = "0.4"
tracing-subscriber = { version = "0.3", features = ["env-filter"] }
