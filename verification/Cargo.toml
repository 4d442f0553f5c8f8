[package]
name = "y86_sim"
version = "0.1.0"
edition = "2021"
publish = false

[dependencies]
anyhow = "=1.0.104"
clap = { version = "=4.6.7", features = ["derive"] }
clap-verbosity-flag = "=2.2.3"
ctrlc = "=3.5.2"
dap = "=0.4.1-alpha1"
interpolator = "*"
regex = "=1.13.1"
serde = { version = "=1.0.229", features = ["derive"] }
serde_json = "=1.0.154"
tracing = "=0.1.44"
tracing-subscriber = "=0.3.23"
