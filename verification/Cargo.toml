[package]
name = "stackpr"
version = "0.1.0"
edition = "2021"
publish = false

[dependencies]
anyhow = "*"
bpaf = "*"
fern = "*"
log = "*"
owo-colors = "*"
serde_json = "*"
tempfile = "*"
tracing = "*"
