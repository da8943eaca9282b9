[package]
name = "doover"
version = "0.1.0"
edition = "2021"
publish = false

[dependencies]
async-trait = "=0.1.92"
base64 = "=0.22.1"
chrono = "=0.4.45"
clap = { version = "=4.6.7", features = ["derive", "env"] }
flate2 = "=1.1.10"
futures-util = "=0.3.34"
lambda_runtime = { version = "=0.13.0", default-features = false }
proc-macro2 = "=1.0.107"
quote = "=1.0.47"
reqwest = { version = "=0.12.28", default-features = false, features = ["json"] }
serde = { version = "=1.0.229", features = ["derive"] }
serde_json = { version = "=1.0.154", features = ["preserve_order"] }
syn = { version = "=2.0.119", features = ["full"] }
tokio = { version = "=1.54.1", features = ["rt-multi-thread", "macros", "net", "io-util", "time", "sync", "signal", "fs"] }
tracing = "=0.1.44"
tracing-subscriber = { version = "=0.3.23", features = ["env-filter"] }
