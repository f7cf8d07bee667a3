[package]
name = "mqtt_gateway"
version = "0.1.0"
edition = "2021"
publish = false

[dependencies]
rustls-pemfile = "=2.2.0"
x509-parser = "=0.18.1"
ntex = { version = "=3.12.3", features = ["tokio", "rustls"] }
ntex-mqtt = "=8.2.1"
rustls = { version = "=0.23.45", default-features = false, features = ["ring", "logging", "std", "tls12"] }
tokio = { version = "=1.53.2", features = ["macros", "time", "rt"] }
log = "=0.4.34"
env_logger = "=0.11.11"
