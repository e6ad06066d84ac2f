[package]
name = "nayud_batch"
version = "0.1.0"
edition = "2021"
publish = false

[dependencies]
scylla = { version = "*", features = ["openssl-010"] }
tokio = { version = "*", features = ["rt-multi-thread", "macros", "signal", "time"] }
openssl = "*"
serde = { version = "*", features = ["derive"] }
toml = "*"
