[package]
name = "bluechi_monitor"
version = "0.1.0"
edition = "2021"
publish = false

[dependencies]
dbus = { version = "=0.9.12", features = ["vendored"] }
clap = { version = "=4.6.7", features = ["derive"] }
