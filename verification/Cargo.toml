[package]
name = "nebula"
version = "0.1.0"
edition = "2021"
publish = false

[dependencies]
num_cpus = "*"
strfmt = "*"
libloading = "*"
glob = "*"
lazy_static = "*"
thiserror = "*"
serde = { version = "*", features = ["derive"] }
procfs = { version = "*", default-features = false }
