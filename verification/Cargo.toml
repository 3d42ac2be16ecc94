[package]
name = "ch32_can_rs"
version = "0.1.0"
edition = "2021"
publish = false

[dependencies]
ch32-hal = "=0.0.0"
ch32-metapac = { version = "=0.1.2", features = ["ch32v203c8t6"] }
embedded-can = "=0.4.1"
nb = "=1.1.0"
panic-halt = "=1.0.0"
qingke = "=0.8.2"
qingke-rt = "=0.8.2"
