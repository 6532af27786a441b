[package]
name = "uclip"
version = "0.1.0"
edition = "2021"
publish = false

[dependencies]
uuid = { version = "1", features = ["v4"] }
sha2 = "0.10"
arboard = "3"
clap = { version = "4", features = ["derive"] }
ctrlc = "3"
directories = "*"
gethostname = "*"
serde = { version = "1", features = ["derive"] }
thiserror = "*"
toml = "*"
