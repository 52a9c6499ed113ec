[package]
name = "img_dup"
version = "0.1.0"
edition = "2021"
publish = false

[dependencies]
img_hash = "3"
image = { version = "0.23", default-features = false, features = ["jpeg", "png", "gif"] }
num_cpus = "1"
getopts = "0.2"
rustc-serialize = "0.3"
time = "0.1"
