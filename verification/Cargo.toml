[package]
name = "rsona"
version = "0.1.0"
edition = "2021"
publish = false

[dependencies]
ndarray = "0.16"
rayon = "1"
rustfft = "6"
symphonia = { version = "0.5", features = ["mp3", "aac", "isomp4"] }
thiserror = "2"
tracing = "0.1"
tracing-subscriber = { version = "0.3", features = ["env-filter", "fmt"] }
