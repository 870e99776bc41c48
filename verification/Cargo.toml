[package]
name = "gerb"
version = "0.1.0"
edition = "2021"
publish = false

[dependencies]
gdk = "0.15"
glib = "0.15"
gtk = "0.15"
pyo3 = "0.18"
serde = { version = "1", features = ["derive"] }
serde_json = "1"
uuid = { version = "1", features = ["v4"] }
