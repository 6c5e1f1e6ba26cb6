[package]
name = "lora_receiver"
version = "0.1.0"
edition = "2021"
publish = false

[dependencies]
crc = "3"
heapless = "0.8"
postcard = { version = "1", default-features = false }
serde = { version = "1", default-features = false, features = ["derive"] }
cortex-m = { version = "0.7", features = ["critical-section-single-core"] }
cortex-m-rtic = "1.1"
defmt = "*"
defmt-rtt = "*"
panic-probe = { version = "*", features = ["print-defmt"] }
embedded-hal = "1"
nb = "1"
embedded-graphics = "0.8"
display-interface-i2c = "0.4"
ssd1306 = "0.8"
shared-bus = { version = "0.3", features = ["cortex-m"] }
stm32f4xx-hal = { version = "*", features = ["stm32f446"] }
