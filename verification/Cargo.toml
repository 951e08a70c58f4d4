[package]
name = "vicis"
version = "0.1.0"
edition = "2021"
publish = false

[dependencies]
anyhow = "1"
iced-x86 = { version = "1", default-features = false, features = ["std", "encoder", "block_encoder"] }
id-arena = "2"
memmap = "0.7"
rustc-hash = "1.1"
