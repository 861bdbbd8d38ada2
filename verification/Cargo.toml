[package]
name = "oxc_dom_expressions"
version = "0.1.0"
edition = "2021"
publish = false

[dependencies]
oxc_allocator = "=0.143.0"
oxc_ast = "=0.143.0"
oxc_parser = "=0.143.0"
oxc_span = "=0.143.0"
oxc_traverse = "=0.143.0"
serde = { version = "=1.0.229", features = ["derive"] }

[dev-dependencies]
oxc_codegen = "=0.143.0"
oxc_semantic = "=0.143.0"
