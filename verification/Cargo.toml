[package]
name = "rs_timeskip_archiver"
version = "0.1.0"
edition = "2021"
publish = false

[dependencies]
sha3 = "*"
futures = "*"
chrono = "*"
