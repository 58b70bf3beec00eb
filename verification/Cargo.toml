[package]
name = "easyofd_signature"
version = "0.1.0"
edition = "2021"
publish = false

[dependencies]
sm3 = "=0.5.0"
sm2 = "=0.14.0"
quick-xml = "=0.42.0"
chrono = "=0.4.45"
zip = { version = "=9.2.2", default-features = false, features = ["deflate"] }
der = "=0.8.3"
x509-cert = "=0.3.0"
pem = "=4.0.0"
clap = { version = "4", features = ["derive"] }
