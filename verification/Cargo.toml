[package]
name = "fluent-bit-language-server"
version = "0.1.0"
edition = "2021"
publish = false

[dependencies]
anyhow = "1"
clap = { version = "4", features = ["derive"] }
convert_case = "*"
flate2 = "1"
lazy-regex = "*"
once_cell = "1"
ropey = "1.6"
serde = { version = "1", features = ["derive"] }
serde_json = "1"
thiserror = "*"
time = "*"
tokio = { version = "1", features = ["io-std", "macros", "rt-multi-thread", "sync"] }
tower-lsp = "0.20"
tree-sitter = "*"
tree-sitter-fluentbit = "*"
xshell = "*"
zip = "*"
