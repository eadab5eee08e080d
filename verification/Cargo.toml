[package]
name = "gareji"
version = "0.1.0"
edition = "2021"
publish = false

[dependencies]
chrono = "*"
serde = { version = "*", features = ["derive"] }
serde_json = "*"
rusqlite = { version = "*", features = ["bundled"] }
sha2 = "*"
anyhow = "*"
clap = { version = "*", features = ["derive", "env"] }
tempfile = "*"
which = "*"

[dev-dependencies]
tempfile = "*"
