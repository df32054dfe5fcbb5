[package]
name = "point_cloud_playback"
version = "0.1.0"
edition = "2021"
publish = false

[dependencies]
las = "=0.8.8"
opd-parser = "=0.5.0"
serde_json = "=1.0.151"
