[package]
name = "basalt"
version = "0.1.0"
edition = "2021"
publish = false

[dependencies]
indexmap = "=2.14.2"
serde = { version = "1", features = ["derive"] }
serde_json = "1"
anyhow = "1"
log = "0.4"
pretty_env_logger = "*"
structopt = "*"
rayon = "1"
swc_atoms = "*"
swc_common = "*"
swc_ecma_ast = "*"
swc_ecma_parser = "*"
swc_ecma_loader = { version = "*", features = ["node"] }
swc_ecma_dep_graph = "*"
