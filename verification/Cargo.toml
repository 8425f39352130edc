[package]
name = "ntmusic_engine"
version = "0.1.0"
edition = "2021"
publish = false

[dependencies]
ringbuf = "*"
anyhow = "*"
cpal = "*"
libloading = "*"
memmap2 = "*"
rubato = "*"
rustfft = "*"
serde = { version = "*", features = ["derive"] }
serde_json = "*"
symphonia = "*"
tokio = { version = "*", features = ["rt-multi-thread", "net", "time", "sync", "macros", "io-util"] }
axum = { version = "*", features = ["ws"] }
tracing = "*"
tracing-subscriber = "*"
walkdir = "*"
