[package]
name = "djapp_audio_spike"
version = "0.1.0"
edition = "2021"
publish = false

[dependencies]
cpal = "0.17"
rtrb = "0.3"
symphonia = { version = "0.5", features = ["all"] }
rubato = "1"
rustfft = "6"
ebur128 = "0.1"
rusqlite = { version = "*", features = ["bundled"] }
signalsmith-stretch = "*"
serde = { version = "1", features = ["derive"] }
