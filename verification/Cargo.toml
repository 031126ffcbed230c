[package]
name = "push2talk"
version = "0.1.0"
edition = "2021"
publish = false

[dependencies]
xkbcommon = "*"
input = "*"
libc = "*"
log = "*"
env_logger = "*"
clap = { version = "*", features = ["derive"] }
directories-next = "*"
fs2 = "*"
signal-hook = "*"
libpulse-binding = "*"
