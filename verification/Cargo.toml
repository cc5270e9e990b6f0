[package]
name = "r_web_file_downloader"
version = "0.1.0"
edition = "2021"
publish = false

[dependencies]
url = "*"
scraper = "*"
reqwest = { version = "*", default-features = false }
tokio = { version = "*", features = ["rt-multi-thread", "macros"] }
futures = "*"
argparse = "*"
