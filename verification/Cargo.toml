[package]
name = "solar"
version = "0.1.0"
edition = "2021"
publish = false

[dependencies]
anyhow = "=1.0.104"
chrono = { version = "=0.4.45", default-features = false, features = ["clock", "std"] }
daemonize = "=0.5.0"
futures = "=0.3.34"
libflate = "=2.3.2"
log = "=0.4.34"
morningstar = "=0.4.1"
parking_lot = "=0.12.5"
rppal = "=0.22.1"
serde = { version = "=1.0.229", features = ["derive"] }
serde_json = "=1.0.151"
simple_logger = "=5.2.0"
structopt = "=0.3.26"
syslog = "=7.0.0"
tokio = { version = "=1.53.2", features = ["rt-multi-thread", "macros", "sync", "time", "io-util", "net", "fs"] }
uom = { version = "=0.32.0", features = ["use_serde", "f32", "f64", "si", "std"] }
