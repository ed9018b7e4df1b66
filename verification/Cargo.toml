[package]
name = "hermes_desktop"
version = "0.1.0"
edition = "2021"
publish = false

[dependencies]
arboard = { version = "3", default-features = false }
base64 = "0.22"
image = { version = "0.25", default-features = false, features = ["png"] }
mime_guess = "2"
notify = "8"
open = "5"
rand = "0.10"
rcgen = { version = "0.13", default-features = false, features = ["ring", "pem"] }
regex = "1"
reqwest = { version = "0.12", default-features = false, features = ["json", "multipart"] }
rustls = { version = "0.23", default-features = false, features = ["ring", "std"] }
serde = { version = "1", features = ["derive"] }
serde_json = "1"
tiny_http = "0.12"
tokio = { version = "1", features = ["net", "io-util", "rt"] }
tokio-rustls = { version = "0.26", default-features = false, features = ["ring"] }
trash = { version = "5", default-features = false }
url = "2"
