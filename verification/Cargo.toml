[package]
name = "shorty"
version = "0.1.0"
edition = "2021"
publish = false

[dependencies]
bson = "=0.12.3"
bytes = "=0.4.12"
chrono = "=0.4.45"
mongodb = "=0.3.10"
serde = "=1.0.229"
serde_derive = "=1.0.229"
log = "=0.4.35"
env_logger = "=0.6.2"
dotenv = "=0.13.0"
futures = "=0.1.31"
tokio = "=0.1.22"
tower-grpc = { version = "=0.1.1", features = ["tower-hyper"] }
tower-hyper = "=0.1.1"
prost = "=0.5.0"
http = "=0.1.21"
