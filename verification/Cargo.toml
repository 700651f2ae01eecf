[package]
name = "audio_chain"
version = "0.1.0"
edition = "2021"
publish = false

[dependencies]
hound = "3"
rand = "0.10"
