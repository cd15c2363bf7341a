[package]
name = "apicurio_sync"
version = "0.1.0"
edition = "2021"
publish = false

[dependencies]
async-trait = "=0.1.92"
chrono = "=0.4.45"
dirs = "=7.0.0"
http = "=0.2.12"
lazy_static = "=1.5.1"
open = "=5.4.4"
openidconnect = "=2.5.1"
reqwest = { version = "=0.11.27", default-features = false, features = ["rustls-tls", "json", "blocking"] }
serde = { version = "=1.0.229", features = ["derive"] }
serde_json = "=1.0.151"
serde_yaml = "=0.8.26"
structopt = "=0.3.26"
tokio = { version = "=1.53.2", features = ["full"] }
tracing = "=0.1.44"
tracing-subscriber = "=0.3.23"
url = "=2.5.8"
warp = "=0.3.7"
