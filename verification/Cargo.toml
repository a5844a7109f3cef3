[package]
name = "elgate_core"
version = "0.1.0"
edition = "2021"
publish = false

[dependencies]
anyhow = "1"
core_affinity = "0.8"
libc = "0.2"
memmap2 = "0.9"
num_cpus = "1"
tokio = { version = "1", features = ["rt", "rt-multi-thread", "sync", "time", "macros"] }
tokio-uring = "0.5"
tracing = "0.1"
uuid = { version = "1", features = ["v4"] }
