[package]
name = "rss_watch"
version = "0.1.0"
edition = "2021"
publish = false

[dependencies]
rusqlite = { version = "*", features = ["bundled"] }
rss = "*"
atom_syndication = "*"
clap = { version = "*", features = ["derive"] }
humantime = "*"
url = "*"
reqwest = { version = "*", default-features = false, features = ["blocking"] }
