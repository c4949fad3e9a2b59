[package]
name = "sncast_script"
version = "0.1.0"
edition = "2021"
publish = false

[dependencies]
anyhow = "=1.0.104"
cairo-lang-casm = "=2.21.0"
cairo-lang-runnable-utils = "=2.21.0"
cairo-lang-runner = "=2.21.0"
cairo-lang-sierra = "=2.21.0"
cairo-lang-utils = "=2.21.0"
cairo-vm = "=3.2.0"
camino = "=1.2.6"
clap = { version = "=4.6.7", features = ["derive"] }
scarb-metadata = "=1.15.1"
scarb-ui = "*"
semver = "=1.0.28"
serde_json = "=1.0.154"
sha3 = "=0.10.9"
starknet-types-core = "=0.2.4"
tokio = { version = "=1.54.1", features = ["rt-multi-thread"] }
