[package]
name = "codemark"
version = "0.1.0"
edition = "2021"
publish = false

[dependencies]
sha2 = "=0.10.9"
chrono = "=0.4.45"
regex = "=1.13.1"
tree-sitter = "=0.27.1"
tree-sitter-tsquery = "=0.8.0"
serde = { version = "=1.0.229", features = ["derive"] }
serde_json = "=1.0.154"
clap = { version = "=4.6.7", features = ["derive", "env"] }
shlex = "=2.0.1"
tree-sitter-swift = "*"
tree-sitter-rust = "*"
tree-sitter-typescript = "*"
tree-sitter-python = "*"
tree-sitter-go = "*"
tree-sitter-java = "*"
tree-sitter-c-sharp = "*"
tree-sitter-dart = "*"
