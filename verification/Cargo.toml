[package]
name = "cyphal_service"
version = "0.1.0"
edition = "2021"
publish = false

[dependencies]
canadensis = "*"
canadensis_can = "*"
canadensis_core = "*"
canadensis_data_types = "*"
canadensis_encoding = "*"
canadensis_serial = "*"
canadensis_udp = "*"
clap = { version = "4", features = ["derive"] }
heapless = "*"
rand = "*"
rusb = "0.9"
rusqlite = { version = "*", features = ["bundled"] }
rustyline = "*"
sd-notify = "0.4"
serde = { version = "1", features = ["derive"] }
serialport = { version = "4", default-features = false }
tokio = { version = "1", features = ["full"] }
toml = "*"
tracing = "0.1"
tracing-log = "0.2"
tracing-subscriber = { version = "0.3", features = ["env-filter"] }
