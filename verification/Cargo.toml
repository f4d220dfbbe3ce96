[package]
name = "xpanse"
version = "0.1.0"
edition = "2021"
publish = false

[dependencies]
heapless = "0.8"
runes = "*"
defmt = "*"
embassy-futures = "*"
embassy-rp = { version = "*", default-features = false, features = ["rp235xa"] }
embassy-sync = "*"
embassy-time = "*"
embedded-hal = "1"
embedded-hal-async = "1"
embedded-hal-bus = { version = "*", features = ["async"] }
embedded-io-async = "*"
static_cell = "*"
ti-adc-expander = "*"
