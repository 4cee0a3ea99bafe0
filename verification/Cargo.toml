[package]
name = "certgen"
version = "0.1.0"
edition = "2021"
publish = false

[dependencies]
azul-text-layout = "*"
csv = "1"
image = "0.23"
printpdf = "0.3"
serde = { version = "1", features = ["derive"] }
serde_derive = "1"
toml = "0.5"
