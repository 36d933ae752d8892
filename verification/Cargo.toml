[package]
name = "weechatrs"
version = "0.1.0"
edition = "2021"
publish = false

[dependencies]
base64 = "=0.22.1"
chrono = { version = "=0.4.45", default-features = false, features = ["clock", "std"] }
url = "=2.5.8"
sha2 = "=0.10.9"
serde = { version = "1", features = ["derive"] }
serde_json = "=1.0.154"
image = { version = "=0.25.10", default-features = false, features = ["gif", "jpeg", "png", "webp"] }
fontdb = { version = "0.23", default-features = false, features = ["std", "fs"] }
keyring = { version = "=3.0.5", default-features = false }
arboard = { version = "3", default-features = false, features = ["image-data"] }
reqwest = { version = "0.12", default-features = false, features = ["multipart"] }
tokio = { version = "1", features = ["rt-multi-thread", "sync", "time", "fs"] }
zbus = { version = "5", default-features = false, features = ["tokio", "blocking-api"] }
egui = { version = "0.29", default-features = false }
eframe = { version = "0.29", default-features = false, features = ["x11"] }
