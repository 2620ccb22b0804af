[package]
name = "skyrender"
version = "0.1.0"
edition = "2021"
publish = false

[dependencies]
atomicwrites = "*"
blackbody = "*"
clap = { version = "*", features = ["derive"] }
dirs = "*"
flate2 = "*"
image = { version = "*", default-features = false, features = ["png"] }
rayon = "*"
reqwest = { version = "*", default-features = false, features = ["blocking"] }
