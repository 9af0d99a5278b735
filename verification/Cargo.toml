[package]
name = "tars"
version = "0.1.0"
edition = "2021"
publish = false

[dependencies]
async-trait = "0.1"
byteorder = "1"
bytes = "1"
chrono = "0.4"
crc32fast = "1"
dashmap = "5"
hex = "0.4"
md-5 = "0.10"
once_cell = "1"
parking_lot = "0.12"
rand = "0.8"
rustls-pemfile = "2"
serde = { version = "1", features = ["derive"] }
thiserror = "1"
tokio = { version = "1", features = ["full"] }
tokio-rustls = "0.26"
tracing = "0.1"
webpki-roots = "0.26"
