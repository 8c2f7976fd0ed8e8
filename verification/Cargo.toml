[package]
name = "jira_tracker"
version = "0.1.0"
edition = "2021"
publish = false

[dependencies]
anyhow = "*"
clearscreen = "*"
colored = "*"
ellipse = "*"
itertools = "*"
serde = { version = "*", features = ["derive"] }
serde_json = "*"
