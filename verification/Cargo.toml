[package]
name = "maestro_core"
version = "0.1.0"
edition = "2021"
publish = false

[dependencies]
sha2 = "=0.11.0"
hex = "=0.4.3"
serde = { version = "*", features = ["derive"] }
serde_json = "=1.0.151"
tokio = { version = "*", features = ["rt-multi-thread", "macros", "net", "io-util", "time", "sync", "process", "fs"] }
axum = "*"
reqwest = { version = "*", default-features = false, features = ["json"] }
portable-pty = "*"
libc = "*"
sysinfo = "*"
uuid = { version = "*", features = ["v4"] }
chrono = "*"
directories = "*"
