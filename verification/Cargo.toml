[package]
name = "video-wallpaper"
version = "0.1.0"
edition = "2021"
publish = false

[dependencies]
serde_json = "1"
dirs = "*"
serde = { version = "1", features = ["derive"] }
toml = "*"
log = "0.4"
env_logger = "*"
glib = "*"
gio = "*"
gdk4 = "*"
gtk4 = { version = "*", features = ["v4_12"] }
libadwaita = { version = "*", features = ["v1_5"] }
