[package]
name = "taarof_app"
version = "0.1.0"
edition = "2021"
publish = false

[dependencies]
serde = { version = "1", features = ["derive"] }
serde_json = "1"
getrandom = "0.2"
mime_guess = "2"
libc = "0.2"
gtk4 = "*"
libadwaita = "*"
vte4 = "*"
sourceview5 = "*"
