[package]
name = "autosplitter_editor"
version = "0.1.0"
edition = "2021"
publish = false

[dependencies]
druid = "=0.8.3"
livesplit-core = { version = "=0.13.0", features = ["auto-splitting"] }
native-dialog = "=0.7.0"
