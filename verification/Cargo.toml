[package]
name = "samd5_boot"
version = "0.1.0"
edition = "2021"
publish = false

[dependencies]
anyhow = "1"
atsamd-hal = { version = "*", features = ["samd51j"] }
bytemuck = "1"
clap = { version = "4", features = ["derive"] }
cobs = "0.3"
cortex-m = "0.7"
embedded-hal = "0.2"
probe-rs = "0.30"
serialport = { version = "4", default-features = false }

[dev-dependencies]
postcard = { version = "1", features = ["alloc"] }
