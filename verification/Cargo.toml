[package]
name = "script_runtime"
version = "0.1.0"
edition = "2021"
publish = false

[dependencies]
cast = "0.2"
futures = "0.1"
jni = "0.14"
jni-sys = "0.3"
lazy_static = "1"
libc = "0.2"
reqwest = { version = "0.9", default-features = false }
serde = { version = "1", features = ["derive"] }
tokio = "0.1"

[dev-dependencies]
serde_json = "1"
