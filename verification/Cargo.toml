[package]
name = "graybmp"
version = "0.1.0"
edition = "2021"
publish = false

[dependencies]
byteorder = "=1.5.0"
anyhow = "=1.0.104"
log = "=0.4.34"
num = "=0.4.3"
querystring = "=1.1.0"
embedded-svc = "=0.22.3"
esp-idf-svc = "=0.42.5"
esp-idf-sys = "=0.31.12"

[dev-dependencies]
image = { version = "=0.25.10", default-features = false, features = ["bmp"] }
