[package]
name = "async_executor"
version = "0.1.0"
edition = "2021"
publish = false

[dependencies]
crossbeam-deque = "0.8"
dashmap = "4"
env_logger = "0.9"
futures = "0.3"
lazy_static = "1.4"
libc = "0.2"
log = "0.4"
