[package]
name = "gh_activity"
version = "0.1.0"
edition = "2021"
publish = false

[dependencies]
chrono = "=0.4.45"
github-stats = "=0.2.0"
serde_json = "=1.0.154"
structopt = "=0.3.26"
