[package]
name = "brainv"
version = "0.1.0"
edition = "2021"
publish = false

[dependencies]
cranelift-codegen = "=0.134.4"
cranelift-frontend = "=0.134.4"
cranelift-jit = "=0.134.4"
cranelift-module = "=0.134.4"
clap = { version = "=4.5.61", features = ["derive"] }
libc = "=0.2.190"
