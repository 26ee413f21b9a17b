[package]
name = "lift"
version = "0.1.0"
edition = "2021"
publish = false

[dependencies]
rusb = "=0.9.4"
positioned-io = "=0.3.5"
thiserror = "=1.0.69"
log = "=0.4.35"
env_logger = "=0.11.11"
shellexpand = "=3.1.2"
chrono = "=0.4.45"
async-std = "=1.13.2"
tide = "=0.16.0"
async-channel = "=1.9.0"
futures-util = "=0.3.34"
gtk4 = "=0.11.5"
libadwaita = "=0.9.2"
gettext-rs = "=0.8.0"
ashpd = { version = "=0.13.13", features = ["usb", "gtk4"] }
