[package]
name = "roc_host"
version = "0.1.0"
edition = "2021"
publish = false

[dependencies]
hyper = { version = "=0.14.32", features = ["full"] }
tokio = { version = "1", features = ["full"] }
futures = "0.3"
libc = "0.2"
log = "0.4"
env_logger = "0.10"
rand = "0.8"
stackalloc = "1"
