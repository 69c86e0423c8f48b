[package]
name = "lamco_wayland"
version = "0.1.0"
edition = "2021"
publish = false

[dependencies]
ashpd = "0.12"
enumflags2 = "*"
futures-util = "0.3"
tokio = { version = "1", features = ["full"] }
zbus = "*"
