[package]
name = "codex_potter_tui"
version = "0.1.0"
edition = "2021"
publish = false

[dependencies]
anyhow = "1"
crossterm = "0.28"
dirs = "6"
icu_segmenter = "2"
ratatui = { version = "0.29", features = ["unstable-widget-ref", "unstable-rendered-line-info"] }
serde = { version = "1", features = ["derive"] }
serde_json = "1"
serde_yaml = "0.9"
tempfile = "3"
textwrap = "0.16"
tokio = { version = "1", features = ["rt", "sync", "macros", "time"] }
tokio-stream = "0.1"
toml_edit = "0.23"
tracing = "0.1"
unicode-width = "0.2"
