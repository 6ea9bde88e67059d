[package]
name = "span_tracing"
version = "0.1.0"
edition = "2021"
publish = false

[dependencies]
smallvec = "=1.16.4"
chrono = { version = "=0.4.45", default-features = false, features = ["std", "clock"] }
parking_lot = "=0.12.5"
libc = "=0.2.191"
lazy_static = "=1.5.1"
log = "=0.4.34"
env_logger = "=0.11.11"
opentelemetry = { version = "*", default-features = false, features = ["trace"] }
