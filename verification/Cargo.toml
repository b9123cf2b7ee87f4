[package]
name = "backup_docker_files"
version = "0.1.0"
edition = "2021"
publish = false

[dependencies]
uuid = { version = "1", features = ["v4", "v7"] }
glob = "0.3"
tar = "0.4"
serde = { version = "1", features = ["derive"] }
serde_json = "1"
toml = "0.8"
clap = { version = "4", features = ["derive"] }
tokio = { version = "1", features = ["macros", "rt-multi-thread"] }
bollard = "0.19"
futures-util = "0.3"
fs_extra = "1.3"
reqwest = { version = "0.12", default-features = false, features = ["json"] }
