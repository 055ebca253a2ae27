[package]
name = "ev_control"
version = "0.1.0"
edition = "2021"
publish = false

[dependencies]
chrono = { version = "0.4", default-features = false, features = ["clock", "std"] }
image = { version = "0.25", default-features = false, features = ["png"] }
reqwest = { version = "0.12", default-features = false, features = ["blocking", "rustls-tls"] }
directories = "6"
serialport = { version = "4", default-features = false }
crossterm = { version = "0.27", default-features = false, features = ["events"] }
serde = { version = "1", features = ["derive"] }
serde_json = "1"
