[package]
name = "atlas_rs"
version = "0.1.0"
edition = "2021"
publish = false

[dependencies]
chrono = "*"
dcap-qvl = "*"
once_cell = "*"
pem = "*"
rustls = "*"
sha2 = "*"
tokio = { version = "*", features = ["net", "rt", "io-util", "macros", "rt-multi-thread", "time"] }
tokio-rustls = "*"
url = "*"
webpki-roots = "*"
