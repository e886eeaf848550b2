[package]
name = "jjwt"
version = "0.1.0"
edition = "2021"
publish = false

[dependencies]
anstyle = "=1.0.14"
anyhow = "=1.0.104"
clap = { version = "=4.6.7", features = ["derive"] }
clap_complete = { version = "=4.6.11", features = ["unstable-dynamic"] }
indexmap = { version = "=2.14.2", features = ["serde"] }
libc = "=0.2.191"
minijinja = "=2.24.0"
petname = "=2.0.2"
sanitize-filename = "=0.6.0"
serde = { version = "=1.0.229", features = ["derive"] }
serde_json = "=1.0.154"
sha2 = "=0.10.9"
skim = "=5.9.0"
terminal_size = "=0.4.4"
thiserror = "=2.0.21"
toml = "=0.8.23"
tree-sitter-bash = "=0.25.1"
tree-sitter-highlight = "=0.27.1"
unicode-width = "=0.2.3"
walkdir = "=2.5.0"
which = "=8.0.6"
