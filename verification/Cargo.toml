[package]
name = "fw_helper"
version = "0.1.0"
edition = "2021"
publish = false

[dependencies]
async-channel = "2"
futures-util = "0.3"
gtk4 = { version = "0.9", features = ["v4_12"] }
libadwaita = { version = "0.7", features = ["v1_5"] }
libc = "0.2"
tokio = { version = "1", features = ["macros", "rt-multi-thread", "signal", "time"] }
zbus = "5"
