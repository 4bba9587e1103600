[package]
name = "asimov_module_cli"
version = "0.1.0"
edition = "2021"
rust-version = "1.95"
publish = false

[dependencies]
asimov-env = "=25.0.3"
asimov-module = "=25.0.3"
asimov-registry = "=25.0.3"
clientele = { version = "=0.3.14", default-features = false, features = ["std", "clap", "argfile", "dotenv", "wild", "subcommands", "tracing"] }
color-print = "=0.3.7"
flate2 = "=1.1.10"
known-types-rubygems = { version = "=0.1.5", features = ["serde"] }
open = "=5.4.5"
regex = "=1.13.1"
reqwest = { version = "=0.12.28", default-features = false, features = ["json"] }
serde = { version = "=1.0.229", features = ["derive"] }
serde_json = "=1.0.154"
serde_yml = "=0.0.13"
sha2 = "=0.10.9"
tar = "=0.4.46"
tempfile = "=3.27.0"
tokio = { version = "=1.54.1", features = ["rt", "rt-multi-thread", "macros", "fs", "io-util", "time"] }
tracing = "=0.1.44"
zip = { version = "=2.6.1", default-features = false, features = ["deflate"] }
