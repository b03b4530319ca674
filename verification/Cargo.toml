[package]
name = "wildcard_dns"
version = "0.1.0"
edition = "2021"
publish = false

[dependencies]
async-trait = "0.1"
dotenv = "0.15"
envy = "0.4"
log = "0.4"
pretty_env_logger = "0.5"
serde = { version = "1", features = ["derive"] }
thiserror = "1"
tokio = { version = "1", features = ["macros", "net", "rt-multi-thread"] }
trust-dns-server = "0.23"
