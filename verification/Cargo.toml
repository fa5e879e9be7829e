[package]
name = "tyedev"
version = "0.1.0"
edition = "2021"
publish = false

[dependencies]
anyhow = "*"
ascii_table = "*"
clap = { version = "*", features = ["derive"] }
clap_complete = "*"
clap-verbosity-flag = "*"
dirs = "*"
env_logger = "*"
human_format = "*"
inquire = "*"
log = "*"
oci-client = "*"
ocipkg = "*"
serde = { version = "*", features = ["derive"] }
serde_json = "*"
serde_jsonc = "*"
tar = "*"
tokio = { version = "*", features = ["macros", "rt-multi-thread"] }
