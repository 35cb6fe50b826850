[package]
name = "subnet_rental_canister"
version = "0.1.0"
edition = "2021"
publish = false

[dependencies]
candid = "0.10"
ic-cdk = "0.18"
ic-cdk-timers = "0.12"
ic-ledger-types = "0.15"
ic-stable-structures = "0.6"
ic-xrc-types = "1"
serde = { version = "1", features = ["derive"] }
serde_bytes = "0.11"
