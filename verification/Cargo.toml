[package]
name = "sn360_agent"
version = "0.1.0"
edition = "2021"
publish = false

[dependencies]
getrandom = "0.3"
rustls = { version = "0.23", default-features = false, features = ["std"] }
rustls-pki-types = { version = "1", features = ["std"] }
thiserror = "2"

[dev-dependencies]
rcgen = { version = "0.13", default-features = false, features = ["crypto", "pem", "ring"] }
tempfile = "3"
