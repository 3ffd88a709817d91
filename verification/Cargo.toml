[package]
name = "spume"
version = "0.1.0"
edition = "2021"
publish = false

[dependencies]
serde = { version = "=1.0.229", features = ["derive"] }
serde_json = "=1.0.154"
futures = "=0.3.34"
gloo-net = "=0.7.0"
gloo-timers = { version = "=0.4.0", features = ["futures"] }
web-sys = { version = "=0.3.107", features = ["AbortController", "AbortSignal"] }
wasm-bindgen-futures = "=0.4.80"
solana-address = { version = "=2.9.0", features = ["decode"] }
solana-epoch-info = { version = "=3.1.0", features = ["serde"] }
solana-epoch-schedule = { version = "=3.4.0", features = ["serde"] }
solana-rpc-client-types = "=3.1.14"
solana-transaction-status-client-types = "=3.1.14"
