[package]
name = "radio_pipeline"
version = "0.1.0"
edition = "2021"
publish = false

[dependencies]
async-watcher = "=0.4.0"
clap = { version = "=4.6.7", features = ["derive"] }
futures = "=0.3.34"
http-body-util = "=0.1.5"
hyper = { version = "=1.12.0", features = ["http1", "server"] }
hyper-util = { version = "=0.1.21", features = ["tokio"] }
mp3lame-sys = "=0.1.11"
rand = "=0.9.5"
rubato = "=0.16.2"
symphonia = { version = "=0.5.5", features = ["all"] }
tokio = { version = "=1.54.1", features = ["macros", "net", "rt-multi-thread", "signal", "sync", "time"] }
walkdir = "=2.5.0"
