[package]
name = "cascade_protocol"
version = "0.1.0"
edition = "2021"
publish = false

[dependencies]
async-graphql = { version = "7.0", default-features = false }
bcs = "0.1.6"
linera-views = { version = "0.12.1", default-features = false }
serde = { version = "1.0", features = ["derive"] }
thiserror = "1.0"
