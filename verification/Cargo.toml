[package]
name = "airfry"
version = "0.1.0"
edition = "2021"
publish = false

[dependencies]
aes = "0.8"
anyhow = "1"
ashpd = { version = "0.9", default-features = false, features = ["tokio"] }
cbc = "0.1"
chacha20 = "0.9"
chacha20poly1305 = "0.10"
ctr = "0.9"
ctrlc = "3"
ed25519-dalek = "2"
gstreamer = "0.23"
gstreamer-app = "0.23"
gtk4 = "0.9"
hkdf = "0.12"
keyring = "3"
ksni = "0.2"
libadwaita = "0.7"
mdns-sd = "0.11"
num-bigint = "0.4"
num-traits = "0.2"
plist = "1"
poly1305 = "0.8"
rand = "0.8"
serde = { version = "1", features = ["derive"] }
serde_json = "1"
sha1 = "0.10"
sha2 = "0.10"
tokio = { version = "1", features = ["rt", "net", "time"] }
x25519-dalek = { version = "2", features = ["static_secrets"] }
