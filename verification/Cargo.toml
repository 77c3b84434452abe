[package]
name = "abap_lsp"
version = "0.1.0"
edition = "2021"
publish = false

[dependencies]
futures-util = "0.3"
http = "1"
reqwest = { version = "0.12", features = ["native-tls"] }
ropey = "1.6"
serde = { version = "1", features = ["derive"] }
serde-xml-rs = "0.8"
serde_json = "1"
slotmap = "1"
tokio = { version = "1", features = ["full"] }
tower-lsp = "0.20"
tracing-subscriber = "0.3"
tree-sitter = "0.25"

[dev-dependencies]
tree-sitter-json = "*"
