[package]
name = "pasta"
version = "0.1.0"
edition = "2021"
publish = false

[dependencies]
sha2 = "=0.10.9"
emojis = "=0.9.1"
zbus = "=5.19.0"
dirs = "=7.0.0"
serde = { version = "=1.0.229", features = ["derive"] }
serde_json = "=1.0.154"
nix = { version = "=0.29.0", features = ["fs"] }
ksni = { version = "=0.3.7", features = ["blocking"] }
wl-clipboard-rs = "=0.9.5"
wayland-client = "=0.31.15"
wayland-protocols = { version = "=0.32.13", features = ["client", "staging"] }
wayland-protocols-wlr = { version = "=0.3.12", features = ["client"] }
