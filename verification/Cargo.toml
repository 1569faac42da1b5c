[package]
name = "rp-wheel-bridge"
version = "0.1.0"
edition = "2021"
publish = false

[dependencies]
cortex-m-rt = "=0.7.7"
critical-section = "=1.2.0"
defmt-rtt = "*"
embassy-executor = "=0.10.0"
embassy-futures = "=0.1.2"
embassy-rp = { version = "=0.10.0", features = ["rp235xa", "time-driver"] }
embassy-sync = "=0.8.0"
embassy-time = "=0.5.1"
embassy-usb = "=0.6.0"
embassy-usb-driver = "=0.2.2"
embassy-usb-host = "=0.1.0"
embedded-alloc = "=0.7.0"
embedded-io-async = "=0.7.0"
log = "=0.4.35"
panic-probe = "*"
static_cell = "=2.1.1"

[dev-dependencies]
critical-section = { version = "=1.2.0", features = ["std"] }
