[package]
name = "scm_record"
version = "0.1.0"
edition = "2021"
publish = false

[dependencies]
diffy = "*"
sha1 = "*"
walkdir = "*"
clap = { version = "*", features = ["derive"] }
serde = { version = "*", features = ["derive"] }
serde_json = "*"
