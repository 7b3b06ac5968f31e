[package]
name = "rkill"
version = "0.1.0"
edition = "2021"
publish = false

[dependencies]
chrono = { version = "=0.4.45", default-features = false, features = ["std"] }
psutil = { version = "=3.3.0", default-features = false, features = ["process"] }
rand = "=0.8.8"
skim = { version = "4.4", default-features = false }
sysinfo = { version = "=0.29.11", default-features = false }
termion = "=1.5.6"
