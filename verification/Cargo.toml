[package]
name = "fluxion_lsp"
version = "0.1.0"
edition = "2021"
publish = false

[dependencies]
anyhow = "=1.0.104"
crossbeam-channel = "=0.5.17"
dashmap = "=6.2.1"
env_logger = "=0.11.11"
log = "=0.4.34"
lsp-server = "=0.10.0"
lsp-types = "=0.97.0"
ropey = "=1.6.1"
ruff_python_ast = "=0.0.8"
ruff_python_parser = "=0.0.8"
ruff_text_size = "=0.0.8"
serde = { version = "=1.0.229", features = ["derive"] }
serde_json = "=1.0.151"
thiserror = "=2.0.21"
