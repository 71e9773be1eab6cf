[package]
name = "jfconsole"
version = "0.1.0"
edition = "2021"
publish = false

[dependencies]
ringbuf = "=0.2.8"
chrono = "0.4"
serde = { version = "1", features = ["derive"] }
serde_json = "1"
rustyline = "9.1"
serialport = { version = "4", default-features = false }
thread-priority = "*"
