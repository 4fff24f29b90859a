[package]
name = "aether_wire"
version = "0.1.0"
edition = "2021"
publish = false

[dependencies]
anyhow = "1"
chrono = "0.4"
crossterm = "0.28"
humantime = "2"
libc = "0.2"
rand_chacha = "0.3"
rand_core = { version = "0.6", features = ["getrandom"] }
ratatui = "0.29"
rustix = { version = "1", features = ["system", "net", "time"] }
