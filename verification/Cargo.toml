[package]
name = "flow"
version = "0.1.0"
edition = "2021"
publish = false

[dependencies]
sha2 = "0.10"
chacha20poly1305 = "0.10"
rcgen = "0.13"
rustc-hash = "2"
evdev = "0.12"
serde = { version = "1", features = ["derive"] }
serde_json = "1"
rusqlite = { version = "*", features = ["bundled"] }
directories = "*"
log = "0.4"
simplelog = "*"
once_cell = "1"
rand = "0.8"
walkdir = "2"
arboard = "3"
tokio = { version = "1", features = ["rt-multi-thread", "net", "sync", "time", "macros", "io-util"] }
tokio-rustls = { version = "0.26", default-features = false, features = ["ring", "logging", "tls12"] }
rustls = { version = "0.23", default-features = false, features = ["ring", "std", "logging", "tls12"] }
rustls-pemfile = "2"
rustls-pki-types = "1"
