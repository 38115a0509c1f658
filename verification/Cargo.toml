[package]
name = "crabcloud_http"
version = "0.1.0"
edition = "2021"
publish = false

[dependencies]
base64 = "=0.22.1"
hmac = "=0.12.1"
sha2 = "=0.10.9"
subtle = "=2.6.1"
urlencoding = "=2.1.3"
hex = "=0.4.3"
rand = "=0.8.8"
quick-xml = "=0.37.5"
bcrypt = "=0.15.1"
httpdate = "=1.0.3"
serde = { version = "=1.0.229", features = ["derive"] }
serde_json = "=1.0.154"
http = "1"
uuid = { version = "1", features = ["v4"] }
chrono = { version = "0.4", default-features = false, features = ["alloc"] }
