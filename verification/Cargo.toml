[package]
name = "transcribe-rs"
version = "0.2.0"
edition = "2021"
publish = false

[dependencies]
hound = "=3.5.1"
log = "=0.4.34"
ndarray = "=0.17.2"
ort = { version = "=2.0.0-rc.15", default-features = false, features = ["std", "ndarray", "load-dynamic"] }
serde_json = "=1.0.154"
thiserror = "=2.0.21"
zip = { version = "=2.6.1", default-features = false, features = ["deflate"] }
