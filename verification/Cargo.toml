[package]
name = "challenge_pool"
version = "0.1.0"
edition = "2021"
publish = false

[dependencies]
alloy-primitives = "=0.8.20"
alloy-sol-types = "=0.8.20"
# Named only to hold its version: stylus-sdk 0.9.2 does not compile against ruint
# 1.21, which would be chosen otherwise.
ruint = "=1.14.0"
stylus-sdk = "=0.9.2"
