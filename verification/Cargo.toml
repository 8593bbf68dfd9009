[package]
name = "pyannote_rs"
version = "0.1.0"
edition = "2021"
publish = false

[dependencies]
burn-core = { version = "=0.20.1", default-features = false, features = ["std"] }
burn-nn = { version = "=0.20.1", default-features = false, features = ["std"] }
burn-ndarray = { version = "=0.20.1", default-features = false, features = ["std"] }
burn-store = { version = "=0.20.1", default-features = false, features = ["std", "burnpack"] }
burn-tensor = { version = "=0.20.1", default-features = false, features = ["std"] }
