[package]
name = "humane"
version = "0.1.0"
edition = "2021"
publish = false

[dependencies]
serde_json = "=1.0.154"
serde_yaml = "=0.9.34"
similar-string = "=1.4.3"
normalize-path = "=0.2.2"
nondestructive = "=0.0.29"
portpicker = "=0.1.1"
serde = { version = "=1.0.229", features = ["derive"] }
tokio = { version = "=1.54.1", features = ["full"] }
futures = "=0.3.34"
clap = { version = "=4.6.7", features = ["cargo"] }
schematic = { version = "=0.20.12", features = ["json", "toml", "yaml"] }
console = "=0.16.6"
dialoguer = { version = "=0.12.0", features = ["fuzzy-select"] }
similar = { version = "=2.7.0", features = ["inline"] }
tempfile = "=3.27.0"
wax = "=0.7.0"
actix-web = "=4.18.1"
actix-files = "=0.6.10"
pagebrowse = "=0.1.1"
