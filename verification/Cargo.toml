[package]
name = "cnblog_sync"
version = "0.1.0"
edition = "2021"
publish = false

[dependencies]
base64 = "=0.23.1"
rusqlite = { version = "=0.40.2", features = ["bundled", "serialize"] }
chrono = "=0.4.45"
xmlrpc = "=0.15.1"
walkdir = "=2.5.0"
filetime = "=0.2.29"
dirs = "=7.0.0"
clap = { version = "=4.6.7", features = ["derive"] }
serde = { version = "=1.0.229", features = ["derive"] }
serde_json = "=1.0.151"
iso8601 = "=0.4.2"
tempfile = "=3.27.0"
