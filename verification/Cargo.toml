[package]
name = "gecko_client"
version = "0.1.0"
edition = "2021"
publish = false

[dependencies]
anyhow = "=1.0.104"
clap = { version = "=4.6.7", features = ["derive"] }
fehler = "=1.0.0"
proc-macro2 = { version = "=1.0.107", features = ["span-locations"] }
quote = "=1.0.47"
syn = { version = "=1.0.109", features = ["full"] }
tokio = { version = "=1.54.1", features = ["macros", "process", "rt-multi-thread"] }
