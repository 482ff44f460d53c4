[package]
name = "qrfs"
version = "0.1.0"
edition = "2021"
publish = false

[dependencies]
bincode = "1.3"
qrcode = { version = "0.14", default-features = false, features = ["image"] }
image = { version = "0.25", default-features = false, features = ["png"] }
quircs = "0.10"
time = "0.1"
fuse = "0.3"
libc = "0.2"
native-dialog = "0.6"
ncurses = "5"
