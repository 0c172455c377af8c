[package]
name = "rust_file_sync"
version = "0.1.0"
edition = "2021"
publish = false

[dependencies]
aes-gcm = "=0.10.3"
anyhow = "=1.0.104"
clap = { version = "=4.6.7", features = ["derive"] }
dotenv = "=0.15.0"
env_logger = "=0.10.2"
flate2 = "=1.1.10"
google-drive3 = "*"
hex = "=0.4.3"
log = "=0.4.34"
notify = "=6.1.1"
rand = "=0.8.8"
reqwest = { version = "*", default-features = false }
rusoto_core = { version = "=0.48.0", default-features = false, features = ["rustls"] }
rusoto_s3 = { version = "=0.48.0", default-features = false, features = ["rustls"] }
serde = { version = "=1.0.229", features = ["derive"] }
sha2 = "=0.10.9"
toml = "=0.8.23"
yup-oauth2 = "*"
