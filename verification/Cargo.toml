[package]
name = "itop"
version = "0.1.0"
edition = "2021"
publish = false

[dependencies]
chrono = "0.4"
failure = "0.1"
itertools = "*"
slice-deque = "*"
sys-info = "*"
sysinfo = "*"
termion = "1.5"
tui = { version = "*", default-features = false, features = ["termion"] }
