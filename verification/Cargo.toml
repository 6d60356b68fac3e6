[package]
name = "esp_ahrs_probe"
version = "0.1.0"
edition = "2021"
publish = false

[dependencies]
nalgebra = "=0.33.3"
estima = "=0.3.0"
embedded-hal-compat = "=0.13.0"
mpu6050 = "=0.1.6"
shared-bus = "=0.3.1"
defmt = "=1.2.0"
rtt-target = "=0.6.2"
esp-alloc = "*"
esp-bootloader-esp-idf = "*"
esp-hal = { version = "*", features = ["esp32c6", "unstable"] }
