[package]
name = "rp2350-hid-bridge"
version = "0.1.0"
edition = "2021"
publish = false

[dependencies]
heapless = "=0.8.0"
serde = { version = "=1.0.229", default-features = false, features = ["derive"] }
serde-json-core = "=0.7.0"
embassy-usb = "=0.6.0"
usbd-hid = "=0.10.2"
embassy-sync = "=0.8.0"
embassy-time = "=0.5.1"
embassy-futures = "=0.1.2"
embedded-io-async = "=0.7.0"
static_cell = "=2.1.1"
defmt-rtt = "=1.3.1"
panic-halt = "=1.0.0"
