[package]
name = "wayland-webkit-widget"
version = "0.1.0"
edition = "2021"
publish = false

[dependencies]
actix-files = "0.6"
actix-web = { version = "4", default-features = false, features = ["macros"] }
async-channel = "2"
async-std = "1"
clap = { version = "4", features = ["derive"] }
daemonize = "0.5"
gdk = "0.18"
gio = "0.18"
glib = "0.18"
gtk = "0.18"
gtk-layer-shell = "0.8"
serde = { version = "1", features = ["derive"] }
serde_json = "1"
uuid = { version = "1", features = ["v4"] }
webkit2gtk = "2.0"
