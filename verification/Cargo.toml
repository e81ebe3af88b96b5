[package]
name = "servo4257"
version = "0.1.0"
edition = "2021"
publish = false

[dependencies]
crc = "=3.4.0"
bxcan = "=0.8.0"
embedded-storage = "=0.3.2"
nb = "=1.1.0"
cortex-m = "=0.7.10"
critical-section = "=1.2.0"
