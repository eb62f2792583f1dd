[package]
name = "brep_kernel"
version = "0.1.0"
edition = "2021"
publish = false

[dependencies]
fj-interop = "=0.49.0"
fj-math = "=0.49.0"
itertools = "=0.15.0"
libloading = "=0.9.0"
robust = "=1.2.0"
thiserror = "=2.0.21"
tracing = "=0.1.44"
