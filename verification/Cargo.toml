[package]
name = "together_rs"
version = "0.1.0"
edition = "2021"
publish = false

[dependencies]
subprocess = "=0.2.15"
nix = { version = "=0.31.3", features = ["signal", "process"] }
termion = "=4.0.6"
semver = "=1.0.28"
clap = { version = "=4.6.7", features = ["derive"] }
ctrlc = "=3.5.2"
dialoguer = "=0.12.0"
dirs = "=7.0.0"
serde = { version = "=1.0.229", features = ["derive"] }
serde_yml = "=0.0.13"
toml = "=1.1.6"
