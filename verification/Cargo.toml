[package]
name = "soundsync"
version = "0.1.0"
edition = "2021"
publish = false

[dependencies]
chrono = { version = "0.4", features = ["serde"] }
serde = { version = "1", features = ["derive"] }
serde_json = "1"
toml = "0.8"
tokio = { version = "1", features = ["rt-multi-thread", "macros", "process", "sync", "time", "io-util", "net", "signal", "fs"] }
axum = { version = "0.7", features = ["ws", "macros"] }
tower-http = { version = "0.6", features = ["cors", "fs", "trace"] }
futures = "0.3"
tracing = "0.1"
tracing-subscriber = { version = "0.3", features = ["env-filter"] }
uuid = { version = "1", features = ["v4"] }
libc = "0.2"
dirs = "5"
zbus = { version = "4", default-features = false, features = ["tokio"] }
zvariant = "4"
mdns-sd = "0.11"
rust_cast = "0.19"
rustfft = "6"
opus = "0.3"
mp3lame-encoder = "0.2"
webrtc = "0.12"
rtp = "0.12"
bytes = "1"
rustls = { version = "0.23", default-features = false, features = ["ring", "std", "tls12"] }
