[package]
name = "qre_locker"
version = "0.1.0"
edition = "2021"
publish = false

[dependencies]
aes-gcm = "0.10"
anyhow = "1"
argon2 = "0.5"
chrono = "0.4"
directories = "5"
img-parts = "0.3"
kamadak-exif = "0.5"
lopdf = "*"
pqcrypto-kyber = "0.8"
pqcrypto-traits = "0.3"
qrcodegen = "1.8"
rand = "0.8"
rand_chacha = "0.3"
regex = "1"
serde = { version = "1", features = ["derive"] }
serde_json = "1"
sha2 = "0.10"
sysinfo = "*"
trash = "*"
uuid = { version = "1", features = ["v4"] }
walkdir = "2"
zeroize = "1"
zip = { version = "2", default-features = false, features = ["deflate"] }
zstd = "0.13"

[dev-dependencies]
bincode = "1.3"
