[package]
name = "xpui-rp2040"
version = "0.1.0"
edition = "2021"
publish = false

[dependencies]
embedded-alloc = "=0.6.0"
embedded-graphics = "=0.8.2"
cortex-m = "=0.7.10"
rtt-target = "=0.6.2"
embassy-time = "=0.5.1"
mipidsi = "=0.9.0"
uc8151 = "=0.2.0"

[dev-dependencies]
debouncr = "=0.2.2"
critical-section = { version = "=1.2.0", features = ["std"] }
