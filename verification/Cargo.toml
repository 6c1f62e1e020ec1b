[package]
name = "dweb_cloud"
version = "0.1.0"
edition = "2021"
publish = false

[dependencies]
bip39 = "2"
ed25519-dalek = "2"
sha2 = "0.10"
hex = "0.4"
getrandom = "0.2"
uuid = { version = "1", features = ["v4"] }
zeroize = "1"
serde = { version = "1", features = ["derive"] }
serde_json = "1"
thiserror = "2"
base64 = "0.22"
clap = { version = "4", features = ["derive", "env"] }
tokio = { version = "1", features = ["macros", "rt-multi-thread", "net"] }
axum = "0.8"
http = "1"
tower-http = { version = "0.6", features = ["cors"] }
reqwest = { version = "0.12", default-features = false, features = ["json"] }
opendal = { version = "*", default-features = false, features = ["services-fs"] }
dav-server = "*"
dav-server-opendalfs = "*"
