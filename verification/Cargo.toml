[package]
name = "npm_mirror"
version = "0.1.0"
edition = "2021"
publish = false

[dependencies]
ahash = "*"
async-channel = "*"
bitcode = { version = "*", features = ["serde"] }
chrono = "*"
clap = { version = "*", features = ["derive", "env"] }
compact_str = { version = "*", features = ["serde"] }
console = "*"
dotenv = "*"
hex = "*"
indicatif = "*"
nodejs-semver = { version = "*", features = ["serde"] }
reqwest = { version = "*", default-features = false, features = ["rustls-tls"] }
serde = { version = "*", features = ["derive"] }
serde_json = "*"
sha2 = "*"
thiserror = "*"
tokio = { version = "*", features = ["full"] }
walkdir = "*"
zstd = "*"
