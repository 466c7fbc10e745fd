[package]
name = "agl"
version = "0.1.0"
edition = "2021"
publish = false

[dependencies]
lz4_flex = "=0.14.0"
bzip2 = "=0.6.1"
flate2 = "=1.1.10"
zstd = "=0.14.3"
blake3 = "=1.8.7"
nix-base32 = "=0.2.0"
base32 = "=0.5.1"
base64 = "=0.23.1"
hex = "=0.4.3"
fastrand = "=2.5.0"
encoding_rs = "=0.8.44"
serde_json = "=1.0.154"
toml = "=1.1.8"
tokio = { version = "=1.54.1", features = ["rt-multi-thread", "time", "fs", "io-util"] }
reqwest = { version = "=0.13.5", default-features = false }
seahash = "*"
crc32fast = "*"
crc32c = "*"
xxhash-rust = { version = "*", features = ["xxh32", "xxh64", "xxh3"] }
md5 = "*"
sha1 = "*"
sha2 = "*"
sha3 = "*"
blake2 = "*"
siphasher = "*"
