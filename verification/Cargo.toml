[package]
name = "dbus_async"
version = "0.1.0"
edition = "2021"
publish = false

[dependencies]
dbus-message-parser = "*"
dbus-server-address-parser = "*"
futures = "0.3"
lru = "0.7"
hex = "0.4"
bytes = "1"
retain_mut = "*"
log = "0.4"
libc = "0.2"
thiserror = "1"
bitflags = "1"
async-trait = "0.1"
async-recursion = "*"
serde = { version = "1", features = ["derive"] }
serde-xml-rs = "*"
tokio = { version = "1", features = ["net", "rt", "io-util", "fs", "process", "macros"] }
