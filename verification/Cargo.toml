[package]
name = "steady_state"
version = "0.1.0"
edition = "2021"
publish = false

[dependencies]
itoa = "*"
hdrhistogram = { version = "*", default-features = false }
futures-lite = "*"
libc = "*"
