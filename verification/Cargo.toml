[package]
name = "schemars_to_zod"
version = "0.1.0"
edition = "2021"
publish = false

[dependencies]
dprint-core = "=0.67.4"
dprint-plugin-typescript = "=0.96.1"
schemars = "=0.8.22"
serde_json = "=1.0.151"
