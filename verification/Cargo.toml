[package]
name = "frodo_pir"
version = "0.1.0"
edition = "2021"
publish = false

[dependencies]
actix-cors = "=0.7.2"
actix-web = { version = "=4.18.1", default-features = false, features = ["macros"] }
aws-config = { version = "=1.13.0", default-features = false, features = ["rt-tokio"] }
aws-sdk-s3 = { version = "=1.155.0", default-features = false, features = ["rt-tokio"] }
base64 = "=0.13.1"
bincode = "=1.3.3"
bytes = "=1.12.1"
clap = { version = "=4.6.7", features = ["derive"] }
futures = "=0.3.34"
hex = "=0.4.3"
p256 = { version = "0.13", default-features = false, features = ["hash2curve", "voprf"] }
rand = "=0.8.8"
rand_core = { version = "=0.6.4", features = ["getrandom"] }
reqwest = { version = "=0.11.27", default-features = false, features = ["blocking", "json"] }
serde = { version = "=1.0.229", features = ["derive"] }
serde_json = "=1.0.154"
serde_yaml = "0.9"
sha2 = "=0.10.9"
voprf = { version = "=0.4.1", default-features = false, features = ["serde"] }
