[package]
name = "laser_dac"
version = "0.1.0"
edition = "2021"
publish = false

[dependencies]
byteorder = "=1.5.0"
cpal = "=0.15.3"
crossbeam-queue = "=0.3.14"
log = "=0.4.35"
rusb = "=0.9.4"
socket2 = { version = "=0.5.10", features = ["all"] }
thiserror = "=1.0.69"
