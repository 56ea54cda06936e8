[package]
name = "ligate-cli"
version = "0.1.2"
edition = "2021"
publish = false

[dependencies]
anyhow = "1"
bech32 = "0.11"
borsh = "1"
clap = { version = "4", features = ["derive", "env"] }
clap_complete = "4"
directories = "5"
ed25519-dalek = "2"
hex = "0.4"
rand = "0.8"
reqwest = { version = "0.12", default-features = false, features = ["json"] }
serde = { version = "1", features = ["derive"] }
serde_json = "1"
sha2 = "0.10"
tokio = { version = "1", features = ["macros", "rt-multi-thread", "time"] }
tracing-subscriber = { version = "0.3", features = ["env-filter", "fmt"] }

[dev-dependencies]
