[package]
name = "geoip_columns"
version = "0.1.0"
edition = "2021"
publish = false

[dependencies]
maxminddb = { version = "0.26", features = ["mmap"] }
duckdb = { version = "~1.2", features = ["vtab-loadable", "vscalar", "vtab-arrow"] }
duckdb-loadable-macros = "0.1"
libduckdb-sys = { version = "~1.2", features = ["loadable-extension"] }

[dev-dependencies]
memmap2 = "0.9"
