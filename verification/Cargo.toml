[package]
name = "ringroute"
version = "0.1.0"
edition = "2021"
publish = false

[dependencies]
anyhow = "1"
clap = { version = "4", features = ["derive"] }
env_logger = "0.11"
io-uring = "=0.7.15"
io_uring_buf_ring = "=0.2.3"
libc = "=0.2.191"
log = "0.4"
slab = "=0.4.12"
socket2 = { version = "=0.6.5", features = ["all"] }
