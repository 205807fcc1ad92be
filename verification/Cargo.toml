[package]
name = "rn2xx3"
version = "0.2.1"
edition = "2021"
publish = false

[dependencies]
base16 = { version = "0.2", default-features = false }
embedded-hal = "0.2"
nb = "0.1"
numtoa = "0.2"

[dev-dependencies]
embedded-hal-mock = "0.7"
