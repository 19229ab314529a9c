[package]
name = "hpu_sim"
version = "0.1.0"
edition = "2021"

[dependencies]
anyhow = "=1.0.104"
bitfield-struct = "=0.13.0"
bytemuck = { version = "=1.25.2", features = ["derive", "extern_crate_alloc"] }
clap = { version = "=4.6.7", features = ["derive"] }
hw_regmap = "=0.2.2"
serde = { version = "=1.0.229", features = ["derive"] }
tfhe = { version = "=1.8.2", default-features = false }
tfhe-hpu-backend = "=0.7.0"
thiserror = "=2.0.21"
tokio = { version = "=1.54.1", features = ["rt", "rt-multi-thread", "macros"] }
toml = "=0.8.23"
zhc = "=0.10.1"
