[package]
name = "nrf54_audio"
version = "0.1.0"
edition = "2021"
publish = false

[dependencies]
anyhow = "1"
cortex-m = "0.7"
cortex-m-rt = "0.7"
ctrlc = "3"
hound = "3.5"
libm = "0.2"
microfft = "*"
object = "*"
panic-halt = "*"
probe-rs = "0.31"
rtt-target = "*"
