[package]
name = "pktauth"
version = "0.1.0"
edition = "2021"
publish = false

[dependencies]
aes = "*"
clap = { version = "*", features = ["derive"] }
quinn = { version = "*", default-features = false, features = ["runtime-tokio", "rustls-ring", "log"] }
rand = "*"
rcgen = "*"
rustls = { version = "*", default-features = false, features = ["ring", "std"] }
thiserror = "*"
tokio = { version = "*", features = ["full"] }
