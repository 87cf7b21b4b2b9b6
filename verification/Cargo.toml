[package]
name = "bankviz"
version = "0.1.0"
edition = "2021"
publish = false

[dependencies]
lazy_static = "1"
mp4 = "0.9"
openh264 = "0.2"
parse-display = "0.5"
regex = "1"
