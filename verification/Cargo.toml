[package]
name = "iso_code"
version = "0.1.0"
edition = "2021"
publish = false

[dependencies]
chrono = { version = "0.4", default-features = false, features = ["clock", "std"] }
sha2 = "0.10"
uuid = { version = "1", features = ["v4"] }
rand = "0.8"
sysinfo = "0.33"
serde = { version = "1", features = ["derive"] }
serde_json = "1"
toml = "0.8"
dunce = "1"
fd-lock = "4"
libc = "0.2"
jwalk = "0.8"
filesize = "0.2"
reflink-copy = "0.1"
