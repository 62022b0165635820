[package]
name = "traff-off-func"
version = "0.1.0"
edition = "2021"
publish = false

[dependencies]
macaddr = "=1.0.1"
anyhow = "=1.0.104"
thiserror = "=2.0.21"
aya = "=0.13.1"
aya-log = "=0.2.1"
axum = "=0.8.9"
tower-http = { version = "=0.7.1", features = ["trace"] }
tokio = { version = "=1.54.1", features = ["full"] }
clap = { version = "=4.6.7", features = ["derive"] }
serde = { version = "=1.0.229", features = ["derive"] }
serde-aux = "=4.7.0"
config = { version = "=0.15.27", default-features = false, features = ["yaml"] }
tracing = "=0.1.44"
tracing-subscriber = { version = "=0.3.23", features = ["env-filter", "registry"] }
tracing-bunyan-formatter = "=0.3.11"
tracing-log = "=0.1.4"
log = "=0.4.35"
nix = { version = "=0.31.3", features = ["net", "sched", "time", "fs"] }
docker-api = "=0.14.0"
futures = "=0.3.34"
uuid = { version = "=1.29.0", features = ["v4"] }
