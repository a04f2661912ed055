[package]
name = "desk-monitoring"
version = "0.1.0"
edition = "2021"
publish = false

[dependencies]
chrono = "0.4"
dirs = "5"
gtk4 = "0.9"
gtk4-layer-shell = "0.4"
icalendar = "0.16"
native-tls = "0.2"
objc = "0.2"
reqwest = { version = "0.12", features = ["json"] }
serde = { version = "1", features = ["derive"] }
sysinfo = "0.32"
tokio = { version = "1", features = ["full"] }
tokio-native-tls = "0.3"
toml = "0.8"
