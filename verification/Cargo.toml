[package]
name = "str_bundler"
version = "0.1.0"
edition = "2021"
publish = false

[dependencies]
swc = "=80.0.0"
swc_common = { version = "=26.0.0", features = ["concurrent", "tty-emitter"] }
swc_ecma_ast = "=29.0.2"
swc_ecma_parser = "=46.0.0"
swc_ecma_transforms = "=64.0.0"
swc_ecma_transforms_react = "=56.0.0"
swc_ecma_transforms_typescript = "=56.0.0"
anyhow = "=1.0.104"
cradle = "=0.2.2"
tempfile = "=3.27.0"
unindent = "=0.2.4"

[dev-dependencies]
lexiclean = "=0.0.2"
