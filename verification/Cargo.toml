[package]
name = "hwcodec"
version = "0.1.0"
edition = "2021"
publish = false

[dependencies]
log = "0.4"
cc = "1"
bindgen = { version = "0.59", default-features = false, features = ["runtime"] }
