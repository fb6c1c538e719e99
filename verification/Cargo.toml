[package]
name = "horizon_ui"
version = "0.1.0"
edition = "2021"
publish = false

[dependencies]
egui = { version = "=0.37.0", default-features = false, features = ["default_fonts"] }
egui_commonmark = { version = "=0.26.0", default-features = false }
surge-core = "=1.0.0-beta.66"
tempfile = "=3.27.0"
thiserror = "=2.0.21"
tokio = { version = "=1.54.1", features = ["rt", "net", "time", "io-util", "process", "sync", "macros"] }
tracing = "=0.1.44"
vnc-rs = "=0.6.0"
