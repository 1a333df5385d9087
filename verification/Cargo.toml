[package]
name = "dotdeploy"
version = "0.1.0"
edition = "2021"
publish = false

[dependencies]
sha2 = "=0.10.9"
uuid = { version = "=1.29.0", features = ["v5"] }
clap = { version = "=4.6.7", features = ["cargo", "env"] }
clap_complete = "=4.6.11"
serde = { version = "=1.0.229", features = ["derive"] }
serde_json = "=1.0.154"
toml = "=0.8.23"
dirs = "=5.0.1"
shellexpand = "=3.1.2"
similar = "=2.7.0"
handlebars = "=6.4.4"
whoami = "=1.6.1"
chrono = "=0.4.45"
nix = { version = "=0.29.0", features = ["user", "hostname"] }

[dev-dependencies]
tempfile = "=3.27.0"
