[package]
name = "zap_core"
version = "0.1.0"
edition = "2021"
publish = false

[dependencies]
anyhow = "*"
axum = { version = "*", features = ["ws"] }
clap = "*"
config = "*"
notify = "*"
notify-debouncer-mini = "*"
open = "*"
pulldown-cmark = "*"
serde = { version = "*", features = ["derive"] }
serde_json = "*"
syntect = { version = "*", default-features = false, features = ["default-fancy"] }
tera = "*"
tokio = { version = "*", features = ["macros", "net", "rt-multi-thread", "sync", "time"] }
toml = "*"
tower-http = { version = "*", features = ["fs"] }
walkdir = "*"
