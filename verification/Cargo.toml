[package]
name = "pathfinder_nav"
version = "0.1.0"
edition = "2021"
publish = false

[dependencies]
regex = "1"
rmcp = { version = "*", features = ["server"] }
serde = { version = "1", features = ["derive"] }
serde_json = "1"
tokio = { version = "1", features = ["rt", "macros", "time", "fs"] }
tracing = "0.1"

[dev-dependencies]
tempfile = "3"
