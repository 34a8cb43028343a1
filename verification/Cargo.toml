[package]
name = "steam_audio_codec"
version = "0.1.0"
edition = "2021"
publish = false

[dependencies]
opus = "=0.3.1"
