[package]
name = "lambars"
version = "0.1.0"
edition = "2021"
publish = false

[dependencies]
futures = "0.3"
num_cpus = "1"
pin-project-lite = "0.2"
tokio = { version = "1", features = ["rt", "rt-multi-thread", "time", "sync", "macros"] }
