[package]
name = "missing_albums"
version = "0.1.0"
edition = "2021"
publish = false

[dependencies]
clap = { version = "=4.6.7", features = ["derive"] }
futures-util = "=0.3.34"
musicbrainz_rs = "=0.9.1"
once_cell = "=1.21.4"
stream_throttle = "=0.5.1"
tokio = { version = "=1.54.1", features = ["rt-multi-thread", "macros", "fs", "sync"] }
tracing = "=0.1.44"
tracing-subscriber = "=0.3.23"
