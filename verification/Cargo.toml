[package]
name = "gh_pr_tui"
version = "0.1.0"
edition = "2021"
publish = false

[dependencies]
ansi-parser = "0.9"
nucleo-matcher = "0.3"
zip = { version = "2", default-features = false, features = ["deflate"] }
serde = { version = "1", features = ["derive"] }
serde_json = "1"
