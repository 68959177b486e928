[package]
name = "vumeter"
version = "0.1.0"
edition = "2021"
publish = false

[dependencies]
biquad = "0.4"
libm = "0.2"
serialport = { version = "3", default-features = false }
structopt = "0.3"
