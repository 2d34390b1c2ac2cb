[package]
name = "ca1"
version = "0.1.0"
edition = "2021"
publish = false

[dependencies]
byteorder = "1"
cairo-rs = { version = "0.18", default-features = false, features = ["png"] }
chrono = { version = "0.4", default-features = false, features = ["clock"] }
clap = { version = "3.2", features = ["derive"] }
memmap = "0.7"
rand = "0.8"
rand_pcg = "0.3"
serde = "1"
