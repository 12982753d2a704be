[package]
name = "brewtech"
version = "0.1.0"
edition = "2021"
publish = false

[dependencies]
embassy-executor = "*"
embassy-futures = "*"
embassy-net = "*"
embassy-sync = "*"
embassy-time = "*"
embedded-can = "*"
esp-alloc = "*"
esp-backtrace = "*"
esp-bootloader-esp-idf = "*"
esp-config = "*"
esp-hal = "*"
esp-println = "*"
esp-radio = "*"
esp-rtos = "*"
log = "*"
minimq = "*"
static_cell = "*"
