[package]
name = "sbom_ghr"
version = "0.1.0"
edition = "2021"
publish = false

[dependencies]
anyhow = "=1.0.104"
base16ct = { version = "=1.0.0", features = ["alloc"] }
chrono = "=0.4.45"
clap = { version = "=4.6.7", features = ["derive"] }
digest = "=0.11.3"
flate2 = "=1.1.10"
git2 = { version = "=0.21.0", default-features = false }
octocrab = "=0.47.1"
reqwest = { version = "=0.13.5", default-features = false }
sha1 = "=0.11.0"
spdx-rs = "=0.5.5"
tar = "=0.4.46"
tempfile = "=3.27.0"
thiserror = "=2.0.21"
tokio = { version = "=1.53.2", features = ["rt-multi-thread", "macros"] }
url = "=2.5.8"
zip = { version = "=8.6.0", default-features = false, features = ["deflate"] }
