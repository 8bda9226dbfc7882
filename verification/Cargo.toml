[package]
name = "sixterm"
version = "0.1.0"
edition = "2021"
publish = false

[dependencies]
vt6 = "=0.0.0"
log = "0.4"
simple_logger = "1"
simple-signal = "1"
futures = "0.1"
tokio = "0.1"
tokio-io = "0.1"
tokio-uds = "0.2"
nix = "0.11"
gtk = "0.4"
gdk = "0.8"
glib = "0.5"
cairo-rs = "0.4"
pango = "0.4"
pangocairo = "0.5"
