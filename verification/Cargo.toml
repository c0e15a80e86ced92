[package]
name = "sqlite2mongo"
version = "0.1.0"
edition = "2021"
publish = false

[dependencies]
anyhow = "=1.0.104"
async-std = { version = "=1.13.2", features = ["attributes"] }
heck = "=0.4.1"
mongodb = { version = "=2.6.1", default-features = false, features = ["async-std-runtime", "bson-chrono-0_4"] }
sqlx = { version = "=0.6.3", default-features = false, features = ["sqlite", "chrono", "runtime-async-std-rustls"] }
structopt = "=0.3.26"
