[package]
name = "iced_digraph"
version = "0.1.0"
edition = "2021"
publish = false

[dependencies]
iced = { version = "0.14", default-features = false, features = ["canvas", "image-without-codecs", "tokio", "tiny-skia", "x11", "thread-pool"] }
rfd = { version = "*", default-features = false, features = ["xdg-portal", "tokio"] }
tokio = { version = "1", features = ["fs", "io-util", "rt"] }
