[package]
name = "krdmakit_syscall"
version = "0.1.0"
edition = "2021"
publish = false

[dependencies]
lazy_static = "=1.5.1"
nostd_async = "=0.3.1"
futures-micro = "=0.5.0"
