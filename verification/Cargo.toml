[package]
name = "migtd_transport"
version = "0.1.0"
edition = "2021"
publish = false

[dependencies]
sha2 = "=0.10.9"
tdx-tdcall = "=0.2.1"
