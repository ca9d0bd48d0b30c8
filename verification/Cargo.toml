[package]
name = "exercises"
version = "0.1.0"
edition = "2021"
publish = false

[dependencies]
rand = "0.8"
sha2 = "0.10"
json = "0.12"
tokio = { version = "1", features = ["rt", "rt-multi-thread", "macros", "time"] }
futures = "0.3"
structopt = "0.3"
