[package]
name = "firmware"
version = "0.1.0"
edition = "2021"
publish = false

[dependencies]
embassy-stm32 = { version = "=0.6.0", features = ["stm32f072cb", "time-driver-any", "exti", "unstable-pac"] }
embassy-executor = { version = "=0.9.1", features = ["arch-spin", "executor-thread"] }
embassy-time = "=0.5.1"
embassy-futures = "=0.1.2"
embassy-sync = "=0.8.0"
embassy-embedded-hal = "=0.6.0"
embedded-hal = "=1.0.0"
embedded-hal-async = "=1.0.0"
defmt = "=1.2.0"
defmt-rtt = "=1.3.1"
panic-probe = "=1.0.0"
static_cell = "=2.1.1"
heapless = "=0.9.3"
libm = "=0.2.16"
num-traits = { version = "=0.2.19", default-features = false }
az = "=1.3.0"
unwrap-infallible = "=1.0.0"
array-macro = "=2.1.8"
ssd1306 = { version = "=0.10.0", features = ["async"] }
