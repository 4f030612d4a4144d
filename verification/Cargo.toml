[package]
name = "css2tw-core"
version = "0.1.0"
edition = "2021"
publish = false

[dependencies]
lightningcss = "=1.0.0-alpha.72"
cssparser = "=0.37.0"
regex = "=1.13.1"
scraper = "=0.29.0"
similar = "=3.2.1"
oxc_allocator = "=0.143.0"
oxc_ast = "=0.143.0"
oxc_ast_visit = "=0.143.0"
oxc_parser = "=0.143.0"
oxc_span = "=0.143.0"
serde = { version = "=1.0.229", features = ["derive"] }
serde_json = "=1.0.154"
schemars = "=1.2.3"
thiserror = "=2.0.21"
anyhow = "=1.0.104"
clap = { version = "=4.6.7", features = ["derive"] }
colored = "=3.1.1"
ignore = "=0.4.34"
rayon = "=1.12.0"
tokio = { version = "=1.54.1", features = ["macros", "rt-multi-thread", "io-std"] }
