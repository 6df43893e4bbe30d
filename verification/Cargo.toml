[package]
name = "pawnrace"
version = "0.1.0"
edition = "2021"
publish = false

[dependencies]
anyhow = "1"
jni = "0.21"
