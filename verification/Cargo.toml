[package]
name = "statement_import"
version = "0.1.0"
edition = "2021"
publish = false

[dependencies]
anyhow = "1"
clap = { version = "4", features = ["derive"] }
dotenvy = "0.15"
glob = "0.3"
mongodb = "3"
tokio = { version = "1", features = ["macros", "rt-multi-thread"] }
