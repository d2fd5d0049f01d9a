[package]
name = "rinkle"
version = "0.1.0"
edition = "2021"
publish = false

[dependencies]
anyhow = "=1.0.104"
atty = "=0.2.14"
clap = { version = "=4.6.7", features = ["derive"] }
colored = "=3.1.1"
daemonize = "=0.5.0"
dialoguer = "=0.12.0"
directories-next = "=2.0.0"
dirs = "=7.0.0"
fd-lock = "=4.0.4"
indicatif = "=0.18.6"
interprocess = "=2.4.4"
nix = { version = "=0.31.3", features = ["signal"] }
notify = "=8.2.0"
realme = { version = "=0.2.4", features = ["toml"] }
serde = { version = "=1.0.229", features = ["derive"] }
serde_json = "=1.0.151"
shellexpand = "=3.1.2"
signal-hook = "=0.4.5"
sysinfo = "=0.39.6"
thiserror = "=2.0.21"
tokio = { version = "=1.53.2", features = ["fs"] }
toml = "=1.1.7"
tracing = "=0.1.44"
tracing-subscriber = "=0.3.23"
