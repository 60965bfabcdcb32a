[package]
name = "stm32_kernel"
version = "0.1.0"
edition = "2021"
publish = false

[dependencies]
stm32f4xx-hal = { version = "=0.8.3", features = ["stm32f407", "rt"] }
cortex-m = "=0.6.7"
embedded-hal = "=0.2.7"
nb = "=0.1.3"
alloc-cortex-m = "=0.4.4"
serde = { version = "=1.0.229", default-features = false, features = ["derive"] }
serde-json-core = "=0.7.0"
fat32 = "=0.2.0"
sdio_sdhc = { version = "=0.2.3", features = ["filesystem"] }
