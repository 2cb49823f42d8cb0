[package]
name = "mcpbytes-vault"
version = "0.2.0"
edition = "2021"
publish = false

[dependencies]
base64 = "=0.22.1"
fs2 = "=0.4.3"
getrandom = { version = "=0.4.3", features = ["sys_rng"] }
hkdf = "=0.13.0"
hpke = "=0.15.1"
keyring = { version = "=3.6.3", default-features = false, features = ["apple-native", "async-secret-service", "crypto-rust", "tokio", "windows-native"] }
libc = "0.2"
qrcode = { version = "=0.14.1", default-features = false }
reqwest = { version = "=0.13.5", default-features = false, features = ["json", "rustls-no-provider"] }
rmcp = "=3.8.0"
rustls = { version = "=0.23.46", default-features = false, features = ["ring", "std"] }
serde = { version = "1", features = ["derive"] }
serde_json = "=1.0.154"
sha2 = "=0.11.1"
tokio = { version = "=1.54.1", features = ["io-std", "io-util", "macros", "rt-multi-thread", "time"] }
windows-sys = { version = "0.61", features = ["Win32_Foundation", "Win32_Security", "Win32_Security_Authorization", "Win32_Storage_FileSystem", "Win32_System_SystemServices"] }
x25519-dalek = "=3.0.0"
zeroize = "=1.9.1"

[dev-dependencies]
hex = "=0.4.3"
