[package]
name = "spdm_x509"
version = "0.1.0"
edition = "2021"
publish = false

[dependencies]
der = { version = "0.7", features = ["alloc", "oid", "derive"] }
const-oid = "0.9"
spki = { version = "0.7", features = ["alloc"] }
pem-rfc7468 = { version = "0.7", features = ["alloc"] }
log = "0.4"
ring = "0.17"
