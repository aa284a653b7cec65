[package]
name = "duckdb_chess"
version = "0.1.0"
edition = "2021"
publish = false

[dependencies]
chrono = "=0.4.45"
regex = "=1.13.1"
serde_json = "=1.0.154"
pgn-reader = "=0.28.0"
shakmaty = "0.29"
smallvec = "=1.16.4"
glob = "=0.3.4"
zstd = "=0.14.3"
duckdb = { version = "=1.4.4", default-features = false, features = ["loadable-extension", "vscalar", "vtab-loadable"] }
libduckdb-sys = { version = "=1.4.4", default-features = false, features = ["loadable-extension"] }
duckdb-loadable-macros = "0.1"
