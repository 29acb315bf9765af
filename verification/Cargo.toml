[package]
name = "pico_patterns"
version = "0.1.0"
edition = "2021"
publish = false

[dependencies]
rand = { version = "=0.8.8", default-features = false, features = ["small_rng"] }
smart-leds = "=0.3.0"
ws2812-pio = "=0.7.0"
rp-pico = "=0.8.0"
cortex-m = "=0.7.10"
cortex-m-rt = "=0.7.7"
embedded-hal = { version = "=0.2.7", features = ["unproven"] }
defmt-rtt = "=0.4.2"
panic-probe = { version = "=0.3.2", features = ["print-defmt"] }
