[package]
name = "clipway"
version = "0.1.0"
edition = "2021"
publish = false

[dependencies]
anyhow = "1"
futures-lite = "2"
gio = "*"
glib = "*"
gtk4 = { version = "*", features = ["v4_12"] }
keyring = { version = "3", features = ["async-secret-service", "async-io", "crypto-rust"] }
libadwaita = { version = "*", features = ["v1_5"] }
rusqlite = { version = "*", features = ["bundled-sqlcipher"] }
zbus = "5"
