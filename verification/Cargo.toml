[package]
name = "bossphorus"
version = "0.1.0"
edition = "2021"
publish = false

[dependencies]
blosc = "=0.3.1"
chrono = { version = "=0.4.45", default-features = false, features = ["std", "clock"] }
diesel = { version = "=2.3.14", default-features = false, features = ["sqlite", "chrono"] }
image = { version = "=0.25.10", default-features = false, features = ["jpeg"] }
ndarray = { version = "=0.16.1", default-features = false, features = ["std"] }
reqwest = { version = "=0.12.28", default-features = false, features = ["blocking"] }
rocket = { version = "=0.5.2", default-features = false, features = ["json"] }
rust-s3 = { version = "=0.35.1", default-features = false, features = ["sync", "http-credentials"] }
serde = { version = "=1.0.229", features = ["derive"] }
