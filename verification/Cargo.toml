[package]
name = "ncspot"
version = "0.1.0"
edition = "2021"
publish = false

[dependencies]
url = "=2.5.8"
rand = "=0.8.8"
parse_duration = "=2.1.1"
clap = "=4.6.7"
urlencoding = "2"
serde_json = "1"
