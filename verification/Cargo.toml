[package]
name = "openfang_runtime"
version = "0.1.0"
edition = "2021"
publish = false

[dependencies]
serde = { version = "=1.0.229", features = ["derive"] }
serde_json = "=1.0.154"
reqwest = { version = "=0.12.28", features = ["json"] }
tokio = { version = "=1.54.1", features = ["fs", "rt", "macros", "process", "time", "sync", "io-util", "net"] }
regex-lite = "=0.1.9"
uuid = { version = "=1.29.0", features = ["v4", "v5"] }
ainl-compression = "=0.1.3-alpha"
ainl-semantic-tagger = "=0.1.9"
ainl-graph-extractor = "=0.1.9"
ainl-context-compiler = "=0.1.2"
ainl-memory = "=0.1.12-alpha"
base64 = "=0.22.1"
chrono = "=0.4.45"
dashmap = "=6.2.1"
dirs = "=5.0.1"
tracing = "=0.1.44"
async-trait = "=0.1.92"
futures = "=0.3.34"
lru = "=0.12.5"
tokio-tungstenite = "=0.24.0"
calamine = "=0.38.0"
zip = "=9.2.2"
rust_xlsxwriter = "=0.102.0"
pdf-extract = "=0.7.12"
