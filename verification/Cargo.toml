[package]
name = "statelapse"
version = "0.1.0"
edition = "2021"
publish = false

[dependencies]
chrono = "0.4"
fast_image_resize = "2"
flate2 = "1"
image = "0.24"
imageproc = "0.23"
itertools = "0.10"
log = "0.4"
num-format = "0.4"
rusttype = "0.9"
serde = { version = "1", features = ["derive"] }
serde_json = "1"
simple_logger = "4"
structopt = "0.3"
