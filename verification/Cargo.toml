[package]
name = "evaluator"
version = "0.1.0"
edition = "2021"
publish = false

[dependencies]
regex = "=1.12.4"
anyhow = "1.0.104"
async-trait = "0.1.92"
bb8 = "0.9.1"
bb8-lapin = "0.8.1"
bincode = "1.3.3"
config = { version = "0.13.4", default-features = false, features = ["yaml"] }
dotenvy = "0.15.7"
flume = "0.11.1"
fred = { version = "8.0.6", default-features = false }
futures = "0.3.34"
futures-lite = "2.6.1"
lapin = { version = "4.12.3", default-features = false }
lazy_static = "1.5.1"
pgmq = "0.26.1"
rayon = "1.11.0"
reqwest = { version = "0.11.27", default-features = false }
secrecy = "0.8.0"
serde = { version = "1.0.229", features = ["derive"] }
serde_json = "1.0.154"
sqlx = { version = "0.7.4", default-features = false, features = ["postgres", "runtime-tokio"] }
tokio = { version = "1.54.1", features = ["full"] }
tracing = "0.1.44"
tracing-subscriber = "0.3.23"
uuid = { version = "1.29.1", features = ["v4", "serde"] }
