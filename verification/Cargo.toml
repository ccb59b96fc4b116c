[package]
name = "moraebox"
version = "0.1.0"
edition = "2021"
publish = false

[dependencies]
async-trait = "0.1"
clap = { version = "4", features = ["derive"] }
fs2 = "0.4"
libc = "0.2"
libloading = "0.8"
nix = { version = "0.30", features = ["fs", "process", "signal", "socket", "term", "user"] }
rustix = { version = "1", features = ["termios"] }
serde = { version = "1", features = ["derive"] }
serde_json = "1"
sha2 = "0.10"
tar = "0.4"
tempfile = "3"
thiserror = "2"
tokio = { version = "1", features = ["fs", "io-util", "macros", "net", "process", "rt-multi-thread", "signal", "sync", "time"] }
