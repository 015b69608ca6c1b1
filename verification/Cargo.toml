[package]
name = "roto"
version = "0.1.0"
edition = "2021"
publish = false

[dependencies]
routecore = { version = "0.5", features = ["bmp"] }
inetnum = "0.1"
bytes = "1"
ariadne = "0.4"
log = "0.4"
