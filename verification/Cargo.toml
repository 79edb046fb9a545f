[package]
name = "hvmgen"
version = "0.1.0"
edition = "2021"
publish = false

[dependencies]
micromap = "=0.3.0"
winnow = "=0.5.40"
hvm = "=1.0.11"
cranelift = "0.132"
cranelift-jit = "0.132"
cranelift-module = "0.132"
cranelift-native = "0.132"
