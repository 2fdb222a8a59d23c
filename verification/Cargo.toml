[package]
name = "bitcoin_cash"
version = "0.1.0"
edition = "2021"
publish = false

[dependencies]
byteorder = "=1.5.0"
hex = "=0.4.3"
sha2 = "=0.11.1"
ripemd160 = "=0.9.1"
