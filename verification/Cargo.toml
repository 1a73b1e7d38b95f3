[package]
name = "teetotum_core"
version = "0.1.0"
edition = "2021"
publish = false

[dependencies]
bt-hci = "*"
embassy-executor = "*"
embassy-futures = "*"
embassy-sync = "*"
embassy-time = "*"
embedded-graphics = "*"
embedded-storage = "*"
esp-alloc = "*"
esp-backtrace = "*"
esp-bootloader-esp-idf = "*"
esp-hal = "*"
esp-println = "*"
esp-radio = "*"
esp-rtos = "*"
esp-storage = "*"
fatfs = "*"
log = "*"
static_cell = "*"
trouble-host = "=0.6.0"
wasmi = "*"
