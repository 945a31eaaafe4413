[package]
name = "media_dispatch"
version = "0.1.0"
edition = "2021"
publish = false

[dependencies]
clap = { version = "=4.6.7", features = ["derive"] }
config = { version = "=0.14.1", default-features = false, features = ["toml"] }
image = { version = "=0.25.10", default-features = false, features = ["jpeg"] }
log = "=0.4.34"
pretty_env_logger = "=0.5.0"
reqwest = { version = "=0.11.27", default-features = false }
serde = { version = "=1.0.229", features = ["derive"] }
# Not called by this crate. teloxide-core asks for takecell 0.1, and 0.1.2
# needs a newer compiler than the one this crate is built with.
takecell = "=0.1.1"
teloxide = "=0.13.0"
tokio = { version = "=1.54.1", features = ["rt-multi-thread", "macros", "fs", "time"] }
uuid = { version = "=1.29.0", features = ["v4"] }
