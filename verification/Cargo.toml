[package]
name = "baelyks_shell"
version = "0.1.0"
edition = "2021"
publish = false

[dependencies]
futures = "=0.3.34"
mime_guess = "=2.0.5"
log = "=0.4.35"
fern = "=0.7.1"
chrono = "=0.4.45"
rand = "=0.8.8"
image = { version = "=0.25.10", default-features = false, features = ["png"] }
freedesktop-icons = "=0.4.0"
freedesktop-desktop-entry = "=0.8.4"
walkdir = "=2.5.0"
dirs = "=6.0.0"
serde = { version = "=1.0.229", features = ["derive"] }
zbus = { version = "=5.19.0", default-features = false, features = ["tokio"] }
tokio = { version = "=1.54.1", features = ["rt", "time", "macros"] }
swayipc-async = "=2.1.1"
starship-battery = "=0.12.0"
sysinfo = "=0.40.1"

[dev-dependencies]
nom = "8"
