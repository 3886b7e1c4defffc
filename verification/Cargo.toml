[package]
name = "res_gen"
version = "0.1.0"
edition = "2021"
publish = false

[dependencies]
anyhow = "1"
async-trait = "0.1"
clap = { version = "4", features = ["derive"] }
dotenvy = "0.15"
log = "0.4"
mockall = "0.12"
simplelog = "0.12"
sqlx = { version = "0.7", default-features = false, features = ["sqlite", "runtime-tokio", "migrate"] }
thiserror = "1"
tokio = { version = "1", features = ["rt", "macros"] }
