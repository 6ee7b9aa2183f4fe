[package]
name = "music_catalog"
version = "0.1.0"
edition = "2021"
publish = false

[dependencies]
umya-spreadsheet = "*"
walkdir = "*"
minimp3 = "*"
audiotags = "*"
serde = { version = "*", features = ["derive"] }
serde_json = "*"
