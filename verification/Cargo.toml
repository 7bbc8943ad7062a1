[package]
name = "bridge_indexer"
version = "0.1.0"
edition = "2021"
publish = false

[dependencies]
dotenv = "0.15"
ethers = { version = "2.0", default-features = false, features = ["ws"] }
eyre = "0.6"
futures-util = "0.3"
k256 = "0.13"
serde_json = "1"
sqlx = { version = "0.7", default-features = false, features = ["postgres", "runtime-tokio"] }
tokio = { version = "1", features = ["macros", "rt-multi-thread", "time"] }
