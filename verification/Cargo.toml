[package]
name = "koala_desktop"
version = "0.1.0"
edition = "2021"
publish = false

[dependencies]
image = { version = "*", default-features = false, features = ["jpeg", "png"] }
png = "*"
usvg = "*"
resvg = "*"
tiny-skia = "*"
x11-dl = "*"
libc = "*"
tracing = "*"
