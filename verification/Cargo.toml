[package]
name = "stt_service"
version = "0.1.0"
edition = "2021"
publish = false

[dependencies]
byteorder = "=1.5.0"
dashmap = "=6.2.1"
fenrir-rs = { version = "=0.5.1", features = ["reqwest-async"] }
fern = { version = "=0.7.1", features = ["colored"] }
hound = "=3.5.1"
humantime = "=2.4.0"
nix = { version = "=0.29.0", features = ["fs", "socket"] }
once_cell = "1"
rmp-serde = "=1.3.1"
sd-notify = "=0.4.5"
tokio = { version = "1", features = ["full"] }
tracing = { version = "0.1", features = ["log"] }
url = "=2.5.8"
uuid = { version = "=1.29.0", features = ["v4"] }
whisper-rs = { version = "=0.8.0", features = ["simd"] }
