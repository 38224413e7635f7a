[package]
name = "tick_scheduler"
version = "0.1.0"
edition = "2021"
publish = false

[dependencies]
cortex-m = "*"
cortex-m-rt = "*"
microbit-v2 = "*"
panic-halt = "*"
