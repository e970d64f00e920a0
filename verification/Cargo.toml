[package]
name = "indexer_balances"
version = "0.1.0"
edition = "2021"
publish = false

[dependencies]
anyhow = "=1.0.104"
bigdecimal = "=0.4.11"
cached = { version = "=0.55.1", default-features = false }
clap = { version = "=4.6.7", features = ["derive", "env"] }
dotenv = "=0.15.0"
futures = "=0.3.34"
near-indexer-primitives = "=0.37.4"
near-jsonrpc-client = "=0.22.0"
near-jsonrpc-primitives = "=0.37.4"
num-traits = "=0.2.19"
sqlx = { version = "=0.9.0", default-features = false, features = ["postgres", "runtime-tokio", "bigdecimal"] }
tokio = { version = "=1.54.1", features = ["macros", "rt-multi-thread", "sync", "time"] }
tracing = "=0.1.44"
tracing-subscriber = { version = "=0.3.23", features = ["env-filter"] }
