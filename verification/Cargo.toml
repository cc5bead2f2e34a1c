[package]
name = "term_cursor"
version = "0.1.0"
edition = "2021"
publish = false

[dependencies]
termios = "0.3"
winapi = { version = "0.3", features = ["minwindef", "processenv", "winbase", "wincon", "winnt"] }
