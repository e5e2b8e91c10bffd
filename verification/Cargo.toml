[package]
name = "oxish"
version = "0.1.0"
edition = "2021"
publish = false

[dependencies]
anyhow = "1"
aws-lc-rs = "1"
bitflags = "2"
clap = { version = "4", features = ["derive"] }
data-encoding = "2"
graviola = "*"
libc = "0.2"
listenfd = "1"
rustix = { version = "1", features = ["event", "fs", "net", "process", "pty", "stdio", "termios"] }
thiserror = "2"
tokio = { version = "1", features = ["full"] }
tracing = "0.1"
tracing-subscriber = { version = "0.3", features = ["env-filter"] }
zeroize = "1"
