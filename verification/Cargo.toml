[package]
name = "barbershop"
version = "0.2.0"
edition = "2021"
publish = false

[dependencies]
chrono = "0.4"
rusqlite = "*"
serde = { version = "1", features = ["derive"] }
tauri = { version = "2", default-features = false }
