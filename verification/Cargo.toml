[package]
name = "haki_dl"
version = "0.2.0"
edition = "2021"
publish = false

[dependencies]
aes = "0.8"
brotli = "*"
cbc = "0.1"
chacha20 = "0.9"
cipher = { version = "0.4", features = ["alloc", "block-padding"] }
crossterm = "*"
ctrlc = "3"
ecb = "0.1"
flate2 = "1"
md-5 = "0.10"
regex = "1"
reqwest = { version = "0.12", default-features = false, features = ["rustls-tls", "socks"] }
roxmltree = "*"
time = { version = "0.3", features = ["local-offset", "formatting", "parsing", "macros"] }
tokio = { version = "1", features = ["rt-multi-thread", "macros", "fs", "io-util", "time", "process", "sync"] }
