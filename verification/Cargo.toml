[package]
name = "oathgate"
version = "0.1.0"
edition = "2021"
publish = false

[dependencies]
rand = "=0.8.8"
dhcproto = "=0.12.0"
serde = { version = "=1.0.229", features = ["derive"] }
serde_yaml = "=0.9.34"
clap = { version = "=4.6.7", features = ["derive"] }
tracing = "=0.1.44"
tracing-subscriber = "=0.3.23"
nix = { version = "=0.29.0", features = ["signal", "socket", "fs", "ioctl", "net", "uio", "term", "process", "time", "pthread", "poll"] }
mio = { version = "=1.2.4", features = ["os-poll", "os-ext", "net"] }
flume = "=0.11.1"
parking_lot = "=0.12.5"
pcap-file = "=2.0.0"
thiserror = "=1.0.69"
anyhow = "=1.0.104"
ratatui = "*"
tui-term = "*"
