[package]
name = "canvas_todo"
version = "0.1.0"
edition = "2021"
publish = false

[dependencies]
chrono = { version = "0.4", features = ["serde"] }
colored = "*"
color-eyre = "*"
dirs = "*"
futures = "0.3"
indicatif = "*"
reqwest = { version = "*", default-features = false }
scraper = "*"
serde = { version = "1", features = ["derive"] }
serde_json = "1"
serde_path_to_error = "*"
structopt = "*"
tokio = { version = "1", features = ["macros", "rt-multi-thread", "fs", "io-util", "time"] }
toml = "*"
toml_edit = "*"
