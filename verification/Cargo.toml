[package]
name = "czkawka_core"
version = "0.1.0"
edition = "2021"
publish = false

[dependencies]
crossbeam-channel = "0.5"
directories-next = "2"
dunce = "1"
file-rotate = "*"
fun_time = { version = "*", features = ["log"] }
gtk4 = { version = "*", default-features = false }
handsome_logger = "*"
log = "0.4"
log-panics = { version = "2", features = ["with-backtrace"] }
once_cell = "1"
os_info = { version = "3", default-features = false }
rayon = "1"
serde = { version = "1", features = ["derive"] }
state = "0.6"
trash = "5"
