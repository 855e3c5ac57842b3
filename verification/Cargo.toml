[package]
name = "ree"
version = "0.1.0"
edition = "2021"
publish = false

[dependencies]
libc = "=0.2.191"
rustix = { version = "=1.1.6", features = ["fs", "process", "stdio", "std", "termios"] }
thiserror = "=2.0.21"
fs-err = "=3.3.2"
usage-lib = "=7.1.5"

[dev-dependencies]
tempfile = "=3.27.0"
