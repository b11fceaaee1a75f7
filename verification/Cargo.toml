[package]
name = "can_iso_tp"
version = "0.1.0"
edition = "2021"
publish = false

[dependencies]
embedded-can = "=0.4.1"
embedded-can-interface = "=0.1.1"
libc = "=0.2.191"
socket2 = { version = "=0.6.5", features = ["all"] }
socketcan = { version = "=4.0.0", features = ["tokio"] }
tokio = { version = "=1.54.1", features = ["full"] }
embassy-sync = "=0.7.2"
embassy-time = "=0.5.1"
embassy-futures = "=0.1.2"
embassy-stm32 = { version = "*", features = ["stm32f407vg"] }
