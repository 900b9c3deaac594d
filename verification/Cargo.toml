[package]
name = "sdrapp-core"
version = "0.1.0"
edition = "2021"
publish = false

[dependencies]
num-complex = "0.4"
rustfft = "6"
ringbuf = "0.4"
cpal = "0.15"
soapysdr = "0.3"
