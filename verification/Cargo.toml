[package]
name = "play_on_air"
version = "0.2.3"
edition = "2021"
publish = false

[dependencies]
axum = "0.8"
bytes = "1"
clap = { version = "4", features = ["derive"] }
flacenc = "0.5"
futures-util = "0.3"
if-addrs = "*"
mdns-sd = "*"
parking_lot = "0.12"
rust_cast = "*"
serde = { version = "1", features = ["derive"] }
socket2 = "*"
thiserror = "2"
tokio = { version = "1", features = ["full"] }
toml = "*"
tracing = "0.1"
tracing-log = "0.2"
tracing-subscriber = { version = "0.3", features = ["env-filter"] }

[dev-dependencies]
claxon = "0.4"
hound = "3"
