[package]
name = "elf2tab"
version = "0.1.0"
edition = "2021"
publish = false

[dependencies]
chrono = "0.4"
clap = { version = "4", features = ["derive"] }
clap-num = "1"
elf = "0.7"
ring = "0.16"
rsa-der = "0.3"
sha2 = "0.10"
tar = "0.4"
