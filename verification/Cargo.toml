[package]
name = "async_nucleo"
version = "0.1.0"
edition = "2021"
publish = false

[dependencies]
chrono = { version = "0.4", default-features = false }
embedded-hal = "0.2"
embedded-hal-async = "1"
nb = "1"
rtcc = "0.3"
