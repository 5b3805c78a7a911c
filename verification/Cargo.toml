[package]
name = "worktree-cleaner"
version = "0.4.0"
edition = "2021"
publish = false

[dependencies]
anyhow = "1"
chrono = "0.4"
clap = { version = "4", features = ["derive"] }
git2 = { version = "0.20", default-features = false }
ignore = "0.4"
ratatui = "0.29"
