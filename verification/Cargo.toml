[package]
name = "thread_pool"
version = "0.1.0"
edition = "2021"
publish = false

[dependencies]
crossbeam-queue = "0.2"
failure = { version = "0.1", default-features = false, features = ["std"] }
num_cpus = "1"
