[package]
name = "fj_kernel"
version = "0.1.0"
edition = "2021"
publish = false

[dependencies]
cargo_metadata = "0.15"
libloading = "0.7"
nalgebra = { version = "0.31", default-features = false, features = ["std", "macros"] }
notify = "5"
thiserror = "1"
tracing = "0.1"
zip = { version = "0.6", default-features = false, features = ["deflate"] }
