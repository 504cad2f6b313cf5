[package]
name = "zip"
version = "0.1.0"
edition = "2021"
publish = false

[dependencies]
flate2 = "*"
deflate64 = "*"
bzip2 = "*"
zstd = "*"
memchr = "*"
crc32fast = "*"
rayon = "*"
tempfile = "*"
indexmap = "*"
