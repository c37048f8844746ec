[package]
name = "minder"
version = "0.1.0"
edition = "2021"
publish = false

[dependencies]
async-trait = "0.1"
clap = { version = "4", features = ["derive"] }
clap_complete = "4"
crossterm = { version = "0.28", features = ["event-stream"] }
futures-util = "0.3"
glob = "0.3"
ignore = "0.4"
mq-lang = { version = "=0.6.5", features = ["file-io", "sync"] }
mq-markdown = { version = "=0.7.0", features = ["color"] }
ratatui = { version = "=0.29.0", features = ["unstable-rendered-line-info"] }
reqwest = { version = "0.12", default-features = false, features = ["json", "rustls-tls"] }
rmcp = { version = "*", default-features = false, features = ["client", "transport-child-process"] }
rustyline = "=17.0.2"
serde = { version = "1", features = ["derive"] }
serde_json = { version = "=1.0.154", features = ["float_roundtrip", "preserve_order"] }
similar = "=2.7.0"
terminal_size = "0.4"
thiserror = "2"
tokio = { version = "1", features = ["full"] }
tokio-util = "0.7"
toml = "=1.1.8"
tracing = "0.1"
two-face = "=0.5.2"
unicode-width = "=0.2.0"
uuid = { version = "=1.29.0", features = ["v4"] }
