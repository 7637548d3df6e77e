[package]
name = "playground"
version = "0.1.0"
edition = "2021"
publish = false

[dependencies]
anyhow = "=1.0.104"
bitvec = "=1.1.1"
chrono = "=0.4.45"
clap = { version = "=4.6.7", features = ["derive"] }
clap-verbosity-flag = "*"
color-eyre = "=0.6.5"
conv = "=0.3.3"
crossbeam-channel = "=0.5.17"
dirs = "*"
env_logger = "0.11"
ignore = "=0.4.33"
image = { version = "0.25", default-features = false, features = ["png"] }
indexmap = "=2.14.2"
log = "=0.4.34"
open = "5"
priority-queue = "=2.7.0"
qrcode = "0.14"
rand = "0.8"
rayon = "=1.12.0"
regex = "=1.13.1"
serde = { version = "=1.0.229", features = ["derive"] }
serde_json = "=1.0.154"
textwrap = "0.16"
thiserror = "=1.0.69"
tokio = { version = "=1.54.1", features = ["macros", "net", "rt", "rt-multi-thread", "sync", "time"] }
ureq = { version = "2", features = ["json"] }
url = "=2.5.8"
xml-rs = "0.8"
