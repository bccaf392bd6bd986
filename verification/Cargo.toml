[package]
name = "pause_button"
version = "0.1.0"
edition = "2021"
publish = false

[dependencies]
sysinfo = "0.30"
winapi = { version = "0.3", features = ["processthreadsapi", "winnt", "handleapi"] }
ntapi = "0.4"
