[package]
name = "nixvm"
version = "0.1.0"
edition = "2021"
publish = false

[dependencies]
block2 = "=0.6.2"
clap = { version = "=4.6.7", features = ["derive"] }
dirs = "=6.0.0"
krun-sys = "=1.10.1"
libc = "=0.2.191"
rustix = { version = "=1.1.6", features = ["pty", "stdio", "termios"] }
tracing = "=0.1.44"
tracing-subscriber = { version = "=0.3.23", features = ["env-filter"] }
uuid = { version = "=1.29.0", features = ["v7"] }
