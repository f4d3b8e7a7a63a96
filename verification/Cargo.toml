[package]
name = "ollana"
version = "0.1.0"
edition = "2021"
publish = false

[dependencies]
sha256 = "*"
rustls = "*"
rustls-pemfile = "*"
rcgen = "*"
actix-web = { version = "*", default-features = false, features = ["macros", "rustls-0_23"] }
actix-cors = "*"
reqwest = { version = "*", default-features = false, features = ["rustls-tls", "stream"] }
tokio = { version = "*", features = ["full"] }
tokio-stream = "*"
futures-util = "*"
url = "*"
clap = { version = "*", features = ["derive"] }
daemonizr = "*"
dirs = "*"
env_logger = "*"
log = "*"
anyhow = "*"
