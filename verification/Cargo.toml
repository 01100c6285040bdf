[package]
name = "nfs4_client"
version = "0.1.0"
edition = "2021"
publish = false

[dependencies]
rand = "0.8"
chrono = "0.4"
clap = { version = "4", features = ["derive"] }
indicatif = "0.17"
log = "0.4"
simple-logging = "*"
fs2 = "0.4"
tempdir = "0.3"
rexpect = "0.5"
http_io = "0.2"
qapi = { version = "0.14", features = ["qmp"] }

[dev-dependencies]
serde = "1"
serde_bytes = "0.11"
serde-xdr = "*"
