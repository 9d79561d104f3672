[package]
name = "minitokio"
version = "0.1.0"
edition = "2021"
publish = false

[dependencies]
chrono = "0.4"
crossbeam = "0.8"
httparse = "1"
mio = "0.6"
slab = "0.4"
