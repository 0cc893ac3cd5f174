[package]
name = "player"
version = "0.1.0"
edition = "2021"
publish = false

[dependencies]
crc32fast = "1"
gl = "0.14"
ffmpeg-sys-next = "*"
