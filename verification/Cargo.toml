[package]
name = "crossterm_input"
version = "0.1.0"
edition = "2021"
publish = false

[dependencies]
filedescriptor = "=0.8.3"
libc = "=0.2.191"
mio = { version = "=1.2.4", features = ["os-poll", "os-ext"] }
rustix = { version = "=0.38.44", features = ["fs", "procfs", "process", "stdio", "termios"] }
signal-hook = "=0.3.18"
signal-hook-mio = { version = "=0.2.5", features = ["support-v1_0"] }
