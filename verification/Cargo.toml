[package]
name = "file_watcher"
version = "0.1.0"
edition = "2021"
publish = false

[dependencies]
deno_config = { version = "0.20", features = ["package_json", "sync"] }
log = "0.4"
notify = "6"
tokio = { version = "1", features = ["macros", "rt", "sync", "time"] }
