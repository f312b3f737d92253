[package]
name = "sonora"
version = "0.1.0"
edition = "2021"
publish = false

[dependencies]
symphonia = { version = "0.5.5", features = ["mp3"] }
rodio = "*"
id3 = "*"
