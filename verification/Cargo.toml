[package]
name = "rqueue"
version = "0.1.0"
edition = "2021"
publish = false

[dependencies]
sha2 = "*"
priority-queue = "*"
uuid = { version = "*", features = ["v4"] }
serde = "*"
serde_derive = "*"
serde_json = "*"
log = "*"
size = "*"
reqwest = { version = "0.11", default-features = false, features = ["blocking", "json", "rustls-tls"] }
lettre = "0.9"
lettre_email = "0.9"
rqpush = "*"
