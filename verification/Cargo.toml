[package]
name = "voicetools"
version = "0.1.0"
edition = "2021"
publish = false

[dependencies]
anyhow = "1"
clap = { version = "4", features = ["derive", "env"] }
cpal = "0.15"
dirs = "5"
hound = "3"
ndarray = "0.16"
ort = { version = "=2.0.0-rc.10", default-features = false, features = ["ndarray", "std", "load-dynamic"] }
rustls = { version = "0.23", default-features = false, features = ["ring", "std", "tls12", "logging"] }
rustls-native-certs = "0.7"
rustls-pemfile = "2"
ureq = { version = "2", features = ["proxy-from-env"] }
webpki-roots = "0.26"
whisper-rs = "0.14"
