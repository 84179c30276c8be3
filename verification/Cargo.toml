[package]
name = "omikron"
version = "0.1.0"
edition = "2021"
publish = false

[dependencies]
json = "0.12"
uuid = { version = "1", features = ["v4"] }
base64 = "0.22"
hex = "0.4"
sha2 = "0.10"
hkdf = "0.12"
aes-gcm = "0.10"
x448 = "0.6"
rand = "0.8"
rand_core = "0.6"
livekit-api = "*"
tokio = { version = "1", features = ["full"] }
tokio-util = { version = "0.7", features = ["compat"] }
async-tungstenite = { version = "0.29", features = ["tokio-runtime"] }
tungstenite = "0.26"
futures = "0.3"
dotenv = "0.15"
ansi_term = "0.12"
reqwest = "*"
once_cell = "1"
dashmap = "*"
log = "0.4"
strum = "*"
strum_macros = "*"
serde = { version = "1", features = ["derive"] }
