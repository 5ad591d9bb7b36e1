[package]
name = "bit_kernels"
version = "0.1.0"
edition = "2021"
publish = false

[dependencies]
packed_simd = "*"
raw-cpuid = "*"
