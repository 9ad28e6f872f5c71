[package]
name = "migo_graphics"
version = "0.1.0"
edition = "2021"
publish = false

[dependencies]
smallvec = "=1.16.4"
glow = "=0.16.0"
khronos-egl = { version = "6", features = ["dynamic"] }
libloading = "0.8"
