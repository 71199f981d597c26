[package]
name = "sweep_core"
version = "0.1.0"
edition = "2021"
publish = false

[dependencies]
serde = { version = "1", features = ["derive"] }
serde_json = "1"
clap = { version = "4", features = ["derive"] }
anyhow = "1"
directories = "*"
fs4 = "*"
ignore = "*"
rayon = "*"
remove_dir_all = "*"
thiserror = "*"
trash = "*"
