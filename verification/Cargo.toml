[package]
name = "ireplay"
version = "0.1.0"
edition = "2021"
publish = false

[dependencies]
hashbrown = "0.15"
nohash-hasher = "0.2"
embassy-time = "0.3"
serde = { version = "1", default-features = false, features = ["derive"] }
picoserve = "*"
embassy-executor = "0.6"
embassy-net = "0.5"
embedded-io-async = "0.6"
log = "0.4"
rand = { version = "0.8", default-features = false }
esp-hal = "0.22"
esp-wifi = "0.11"
esp-hal-embassy = "0.5"
esp-alloc = "0.5"
esp-backtrace = "0.14"
esp-println = "0.12"
