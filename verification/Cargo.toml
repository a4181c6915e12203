[package]
name = "hbb_common"
version = "0.1.0"
edition = "2021"
publish = false

[dependencies]
serde_json = "1"
serde = { version = "1", features = ["derive"] }
reqwest = { version = "0.11", default-features = false, features = ["blocking", "json", "rustls-tls"] }
tokio = { version = "1", features = ["rt", "rt-multi-thread", "macros", "time"] }
sysinfo = "0.29"
mac_address = "1"
local-ip-address = "0.5"
winit = "0.26"
trayicon = "0.1"
