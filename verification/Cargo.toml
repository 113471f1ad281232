[package]
name = "audio_visualizer"
version = "0.1.0"
edition = "2021"
publish = false

[dependencies]
cpal = "*"
sacn = "*"
realfft = "*"
hann-rs = "*"
log = "*"
env_logger = "*"
