[package]
name = "avro_phonetic"
version = "0.1.0"
edition = "2021"
publish = false

[dependencies]
json = "*"
fuzzy-matcher = "*"
ffi-convert = "*"
