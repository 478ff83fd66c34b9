[package]
name = "facecounter"
version = "0.1.0"
edition = "2021"
publish = false

[dependencies]
glib = "=0.9.3"
glib-sys = "=0.9.1"
gobject-sys = "=0.9.1"
gstreamer = "=0.15.7"
gstreamer-sys = "=0.8.1"
gstreamer-base = { version = "=0.15.4", features = ["v1_14"] }
gstreamer-video = "=0.15.7"
opencv = "=0.33.1"
