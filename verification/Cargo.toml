[package]
name = "icemining"
version = "0.1.0"
edition = "2021"
publish = false

[dependencies]
hashbrown = "=0.17.1"
serde = { version = "=1.0.229", features = ["derive"] }
rmp-serde = "1"
serde_json = "=1.0.154"
chrono = "=0.4.45"
dotenv = "=0.15.0"
tokio = { version = "=1.54.1", features = ["full"] }
futures = "=0.3.34"
diesel = { version = "=1.4.8", features = ["mysql", "postgres", "r2d2"] }
nats = "=0.26.0"
rand = "=0.7.3"
logwatcher = "=0.1.1"
rocket = "=0.5.2"
