[package]
name = "quiet_ledger"
version = "0.1.0"
edition = "2021"
publish = false

[dependencies]
soroban-client = "=0.6.0"
stellar-strkey = "=0.0.15"
