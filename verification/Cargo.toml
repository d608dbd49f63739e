[package]
name = "vtex_dataload"
version = "0.1.0"
edition = "2021"
publish = false

[dependencies]
clap = { version = "*", features = ["derive"] }
csv = "*"
dotenv = "*"
env_logger = "*"
futures = "*"
log = "*"
rand = "*"
regex = "*"
reqwest = { version = "*", default-features = false, features = ["json"] }
serde = { version = "*", features = ["derive"] }
serde_json = "*"
tokio = { version = "*", features = ["macros", "rt-multi-thread", "time"] }
