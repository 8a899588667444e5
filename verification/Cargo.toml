[package]
name = "dabctl"
version = "0.1.0"
edition = "2021"
publish = false

[dependencies]
anyhow = "1"
base64 = "*"
clap = { version = "4", features = ["derive"] }
ctrlc = "*"
libc = "*"
num-complex = "*"
rustfft = "6"
serde = { version = "1", features = ["derive"] }
serde_json = "1"
smallvec = "1"
tracing = "*"
tracing-subscriber = { version = "*", features = ["env-filter"] }
