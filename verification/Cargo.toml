[package]
name = "cardputer_rust"
version = "0.1.0"
edition = "2021"
publish = false

[dependencies]
embassy-executor = "*"
embassy-futures = "*"
embassy-net = { version = "*", features = ["tcp", "dhcpv4", "medium-ethernet", "proto-ipv4"] }
embassy-time = "*"
embedded-graphics = "*"
embedded-hal = "1"
embedded-hal-bus = "*"
esp-alloc = "*"
esp-backtrace = { version = "*", features = ["esp32s3", "panic-handler", "println"] }
esp-bootloader-esp-idf = { version = "*", features = ["esp32s3"] }
esp-hal = { version = "*", features = ["esp32s3", "unstable"] }
esp-println = { version = "*", features = ["esp32s3"] }
esp-radio = { version = "*", features = ["esp32s3", "wifi"] }
esp-rtos = { version = "*", features = ["esp32s3", "embassy", "esp-radio"] }
log = "0.4"
mipidsi = "*"
tca8418 = "*"
