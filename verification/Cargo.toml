[package]
name = "friday"
version = "0.1.0"
edition = "2021"
publish = false

[dependencies]
chrono = "=0.4.45"
colored = "=2.2.0"
duct = "=0.13.7"
job_scheduler = "=1.2.1"
log = "=0.4.34"
regex = "=1.13.1"
simplelog = "=0.12.2"
time = { version = "=0.3.55", features = ["macros", "formatting"] }
tokio = { version = "=1.54.1", features = ["macros", "rt-multi-thread"] }
walkdir = "=2.5.0"
yaml-rust = "=0.4.5"
