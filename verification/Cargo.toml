[package]
name = "engine_query"
version = "0.1.0"
edition = "2021"
publish = false

[dependencies]
async-trait = "*"
futures-util = "*"
itertools = "*"
proc-macro2 = "*"
quote = "*"
serde = { version = "*", features = ["derive"] }
serde_json = "*"
syn = { version = "*", features = ["full"] }
thiserror = "*"
