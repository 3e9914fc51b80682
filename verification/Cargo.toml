[package]
name = "dither_stego"
version = "0.1.0"
edition = "2021"
publish = false

[dependencies]
image = "0.25"
tokio = { version = "1", features = ["net", "rt-multi-thread", "macros"] }
