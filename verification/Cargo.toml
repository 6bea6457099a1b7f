[package]
name = "arkiv"
version = "0.1.0"
edition = "2021"
publish = false

[dependencies]
zip = { version = "=8.6.0", default-features = false, features = ["deflate"] }
tar = "=0.4.46"
flate2 = "=1.1.10"
bzip2 = "=0.6.1"
xz2 = { version = "=0.1.7", features = ["static"] }
zstd = "=0.14.0"
tempfile = "=3.27.0"
ureq = { version = "=2.12.1", default-features = false }
fs-err = "=3.3.2"
rustix = { version = "=1.1.5", features = ["fs"] }
