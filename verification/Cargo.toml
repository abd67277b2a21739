[package]
name = "prunr_app"
version = "0.1.0"
edition = "2021"
publish = false

[dependencies]
clap = { version = "4", features = ["derive"] }
dirs = "*"
egui = { version = "*", default-features = false }
hex = "0.4"
image = { version = "0.25", default-features = false, features = ["png", "jpeg", "webp", "bmp"] }
indicatif = "*"
rayon = "1"
reqwest = { version = "0.12", default-features = false, features = ["blocking", "rustls-tls"] }
serde = { version = "1", features = ["derive"] }
serde_json = "1"
sha2 = "0.10"
sysinfo = { version = "*", default-features = false, features = ["system"] }
tracing = "0.1"
zstd = "0.13"
